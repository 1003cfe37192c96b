//! What a track's cache holds, and what it costs.
//!
//! The cache itself is a [`moka::future::Cache`] whose entries come and go with
//! time, so what it holds is only known at the moment of a look.

use crate::text::{self, push_decimal};
use moka::future::Cache;
use vstd::prelude::*;

verus! {

/// One group of one track.
#[derive(Debug, Clone, Copy, PartialEq, Eq, Hash, Structural)]
pub struct CacheKey {
    pub relay_track_id: u64,
    pub group_id: u64,
}

impl CacheKey {
    pub fn new(relay_track_id: u64, group_id: u64) -> (key: CacheKey)
        ensures
            key == (CacheKey { relay_track_id, group_id }),
    {
        CacheKey { relay_track_id, group_id }
    }

    /// The key as text.
    pub open spec fn text(self) -> Seq<char> {
        "track:"@ + text::decimal_text(self.relay_track_id as nat) + "_group:"@
            + text::decimal_text(self.group_id as nat)
    }

    /// The key as text: `track:<track>_group:<group>`.
    pub fn to_string(&self) -> (text: String)
        ensures
            text@ == self.text(),
    {
        let mut text: String = "track:".to_owned();
        push_decimal(&mut text, self.relay_track_id);
        text.append("_group:");
        push_decimal(&mut text, self.group_id);
        text
    }
}

/// What one track's cache holds, for the event log.
#[derive(Debug, Clone, Copy, PartialEq, Eq, Structural)]
pub struct CacheStats {
    pub groups: u64,
    pub bytes: u64,
    pub oldest_group: Option<u64>,
    pub newest_group: Option<u64>,
}

/// Some key of the track names this group.
pub open spec fn holds_group(keys: Seq<CacheKey>, relay_track_id: u64, group_id: u64) -> bool {
    keys.contains(CacheKey { relay_track_id, group_id })
}

/// `oldest` is the smallest group of the track among the keys; `None` when there
/// is none.
pub open spec fn is_oldest(keys: Seq<CacheKey>, relay_track_id: u64, oldest: Option<u64>) -> bool {
    match oldest {
        Some(oldest) => {
            &&& holds_group(keys, relay_track_id, oldest)
            &&& forall|g: u64| #[trigger] holds_group(keys, relay_track_id, g) ==> oldest <= g
        },
        None => forall|g: u64| !#[trigger] holds_group(keys, relay_track_id, g),
    }
}

/// `newest` is the largest group of the track among the keys; `None` when there
/// is none.
pub open spec fn is_newest(keys: Seq<CacheKey>, relay_track_id: u64, newest: Option<u64>) -> bool {
    match newest {
        Some(newest) => {
            &&& holds_group(keys, relay_track_id, newest)
            &&& forall|g: u64| #[trigger] holds_group(keys, relay_track_id, g) ==> g <= newest
        },
        None => forall|g: u64| !#[trigger] holds_group(keys, relay_track_id, g),
    }
}

/// The oldest and the newest group of a track among some keys.
pub fn group_bounds(keys: &Vec<CacheKey>, relay_track_id: u64) -> (bounds: (
    Option<u64>,
    Option<u64>,
))
    ensures
        is_oldest(keys@, relay_track_id, bounds.0),
        is_newest(keys@, relay_track_id, bounds.1),
{
    let mut oldest: Option<u64> = None;
    let mut newest: Option<u64> = None;
    let mut i: usize = 0;
    while i < keys.len()
        invariant
            i <= keys.len(),
            is_oldest(keys@.take(i as int), relay_track_id, oldest),
            is_newest(keys@.take(i as int), relay_track_id, newest),
        decreases keys.len() - i,
    {
        let key: CacheKey = keys[i];
        let ghost seen = keys@.take(i as int);
        let ghost more = keys@.take(i + 1);
        proof {
            assert(more =~= seen.push(key));
            assert(more[i as int] == key);
            assert forall|g: u64|
                #[trigger] holds_group(more, relay_track_id, g) <==> holds_group(
                    seen,
                    relay_track_id,
                    g,
                ) || (key == CacheKey { relay_track_id, group_id: g }) by {
                let wanted = CacheKey { relay_track_id, group_id: g };
                if seen.contains(wanted) {
                    let j = choose|j: int| 0 <= j < seen.len() && seen[j] == wanted;
                    assert(more[j] == wanted);
                }
                if more.contains(wanted) {
                    let j = choose|j: int| 0 <= j < more.len() && more[j] == wanted;
                    if j < i {
                        assert(seen[j] == wanted);
                    }
                }
            }
        }
        if key.relay_track_id == relay_track_id {
            oldest = match oldest {
                Some(o) => if key.group_id < o {
                    Some(key.group_id)
                } else {
                    Some(o)
                },
                None => Some(key.group_id),
            };
            newest = match newest {
                Some(n) => if key.group_id > n {
                    Some(key.group_id)
                } else {
                    Some(n)
                },
                None => Some(key.group_id),
            };
            proof {
                assert(holds_group(more, relay_track_id, key.group_id));
            }
        }
        i = i + 1;
    }
    proof {
        assert(keys@.take(i as int) =~= keys@);
    }
    (oldest, newest)
}

/// The type `moka::future::Cache`.
#[verifier::external_type_specification]
#[verifier::external_body]
#[verifier::reject_recursive_types(K)]
#[verifier::reject_recursive_types(V)]
#[verifier::reject_recursive_types(S)]
pub struct ExCache<K, V, S>(moka::future::Cache<K, V, S>);

/// Calls `Cache::iter` and takes the keys. What the cache holds changes with
/// time; the iterator hands out no entry twice.
#[verifier::external_body]
fn cached_keys<V: Clone + Send + Sync + 'static>(cache: &Cache<CacheKey, V>) -> (keys: Vec<
    CacheKey,
>)
    ensures
        keys@.no_duplicates(),
{
    cache.iter().map(|(key, _)| *key).collect()
}

/// Calls `Cache::entry_count`, an estimate of how many entries the cache holds.
#[verifier::external_body]
fn cached_entry_count<V>(cache: &Cache<CacheKey, V>) -> (count: u64) {
    cache.entry_count()
}

/// The cache of one track.
#[verifier::reject_recursive_types(V)]
pub struct TrackCache<V: Clone + Send + Sync + 'static> {
    pub relay_track_id: u64,
    pub cache: Cache<CacheKey, V>,
}

impl<V: Clone + Send + Sync + 'static> TrackCache<V> {
    pub fn new(relay_track_id: u64, cache: Cache<CacheKey, V>) -> (track_cache: TrackCache<V>)
        ensures
            track_cache.relay_track_id == relay_track_id,
            track_cache.cache == cache,
    {
        TrackCache { relay_track_id, cache }
    }

    /// Groups, payload bytes and group bounds at this moment. The bounds are what
    /// [`group_bounds`] says of the keys that the cache hands out, the number of
    /// groups is the cache's own estimate, and `bytes` is the caller's count.
    /// Nothing more is stated, since entries come and go with time.
    pub fn stats(&self, bytes: u64) -> (stats: CacheStats)
        ensures
            stats.bytes == bytes,
            stats.oldest_group is Some <==> stats.newest_group is Some,
            stats.oldest_group matches Some(oldest) ==> (stats.newest_group matches Some(newest)
                && oldest <= newest),
    {
        let keys: Vec<CacheKey> = cached_keys(&self.cache);
        let (oldest_group, newest_group): (Option<u64>, Option<u64>) = group_bounds(
            &keys,
            self.relay_track_id,
        );
        proof {
            law_bounds_are_ordered(keys@, self.relay_track_id, oldest_group, newest_group);
        }
        CacheStats { groups: cached_entry_count(&self.cache), bytes, oldest_group, newest_group }
    }

    /// The smallest group in the cache at this moment: what [`group_bounds`],
    /// which carries the contract, says of the keys that the cache hands out.
    /// Those keys change with time, so nothing is stated here.
    pub fn oldest_group_id(&self) -> (oldest: Option<u64>) {
        let keys: Vec<CacheKey> = cached_keys(&self.cache);
        let (oldest, _): (Option<u64>, Option<u64>) = group_bounds(&keys, self.relay_track_id);
        oldest
    }

    /// The largest group in the cache at this moment: what [`group_bounds`],
    /// which carries the contract, says of the keys that the cache hands out.
    /// Those keys change with time, so nothing is stated here.
    pub fn newest_group_id(&self) -> (newest: Option<u64>) {
        let keys: Vec<CacheKey> = cached_keys(&self.cache);
        let (_, newest): (Option<u64>, Option<u64>) = group_bounds(&keys, self.relay_track_id);
        newest
    }
}

/// The sum of some payload lengths.
pub open spec fn sum_of(lens: Seq<u64>) -> int
    decreases lens.len(),
{
    if lens.len() == 0 {
        0
    } else {
        sum_of(lens.drop_last()) + lens.last()
    }
}

proof fn lemma_sum_grows(lens: Seq<u64>, n: int)
    requires
        0 <= n <= lens.len(),
    ensures
        0 <= sum_of(lens.take(n)) <= sum_of(lens),
    decreases lens.len() - n,
{
    if n < lens.len() {
        lemma_sum_grows(lens, n + 1);
        assert(lens.take(n + 1).drop_last() =~= lens.take(n));
        lemma_sum_is_not_negative(lens.take(n));
    } else {
        assert(lens.take(n) =~= lens);
        lemma_sum_is_not_negative(lens);
    }
}

proof fn lemma_sum_is_not_negative(lens: Seq<u64>)
    ensures
        sum_of(lens) >= 0,
    decreases lens.len(),
{
    if lens.len() > 0 {
        lemma_sum_is_not_negative(lens.drop_last());
    }
}

/// The payload bytes of a group.
pub fn group_bytes(payload_lens: &Vec<u64>) -> (bytes: u64)
    requires
        sum_of(payload_lens@) <= u64::MAX,
    ensures
        bytes == sum_of(payload_lens@),
{
    let mut bytes: u64 = 0;
    let mut i: usize = 0;
    while i < payload_lens.len()
        invariant
            i <= payload_lens.len(),
            bytes == sum_of(payload_lens@.take(i as int)),
            sum_of(payload_lens@) <= u64::MAX,
        decreases payload_lens.len() - i,
    {
        proof {
            lemma_sum_grows(payload_lens@, i + 1);
            assert(payload_lens@.take(i + 1).drop_last() =~= payload_lens@.take(i as int));
        }
        bytes = bytes + payload_lens[i];
        i = i + 1;
    }
    proof {
        assert(payload_lens@.take(i as int) =~= payload_lens@);
    }
    bytes
}

/// The objects of a group once one more has come in: behind those that the cache
/// holds of the group, or alone in a new group.
pub fn with_object<V>(held: Option<Vec<V>>, object: V) -> (objects: Vec<V>)
    ensures
        objects@ == match held {
            Some(held) => held@.push(object),
            None => seq![object],
        },
{
    let mut objects: Vec<V> = match held {
        Some(held) => held,
        None => Vec::new(),
    };
    objects.push(object);
    objects
}

/// The byte count after an object has come in, modulo 2^64.
pub fn bytes_after_insertion(bytes: u64, payload_len: u64) -> (counted: u64)
    ensures
        counted == (bytes + payload_len) % 0x1_0000_0000_0000_0000,
{
    bytes.wrapping_add(payload_len)
}

/// Evicting what came in gives the byte count of before.
pub proof fn law_eviction_undoes_insertion(bytes: u64, payload_len: u64)
    requires
        bytes + payload_len <= u64::MAX,
    ensures
        ({
            let counted = (bytes + payload_len) % 0x1_0000_0000_0000_0000;
            payload_len <= counted && counted - payload_len == bytes
        }),
{
}

/// The byte count after a group has been evicted. It never goes below zero, even
/// where the group was counted differently.
pub fn bytes_after_eviction(bytes: u64, group_bytes: u64) -> (left: u64)
    ensures
        left == if group_bytes <= bytes {
            bytes - group_bytes
        } else {
            0
        },
{
    bytes.saturating_sub(group_bytes)
}

/// Why a group left the cache.
#[derive(Debug, Clone, Copy, PartialEq, Eq, Structural)]
pub enum EvictionCause {
    Size,
    Expired,
    Explicit,
    Replaced,
}

impl EvictionCause {
    pub open spec fn spec_name(self) -> Seq<char> {
        match self {
            EvictionCause::Size => "SIZE"@,
            EvictionCause::Expired => "EXPIRED"@,
            EvictionCause::Explicit => "EXPLICIT"@,
            EvictionCause::Replaced => "REPLACED"@,
        }
    }

    /// The cause as it stands in the log.
    pub fn name(self) -> (name: &'static str)
        ensures
            name@ == self.spec_name(),
    {
        match self {
            EvictionCause::Size => "SIZE",
            EvictionCause::Expired => "EXPIRED",
            EvictionCause::Explicit => "EXPLICIT",
            EvictionCause::Replaced => "REPLACED",
        }
    }

    pub open spec fn spec_label(self) -> Seq<char> {
        match self {
            EvictionCause::Size => "Size"@,
            EvictionCause::Expired => "Expired"@,
            EvictionCause::Explicit => "Explicit"@,
            EvictionCause::Replaced => "Replaced"@,
        }
    }

    /// The cause as it stands in an event.
    pub fn label(self) -> (label: &'static str)
        ensures
            label@ == self.spec_label(),
    {
        match self {
            EvictionCause::Size => "Size",
            EvictionCause::Expired => "Expired",
            EvictionCause::Explicit => "Explicit",
            EvictionCause::Replaced => "Replaced",
        }
    }
}

/// The line that an eviction leaves in the log: track, group, number of objects
/// and cause, separated by commas.
pub fn eviction_log_entry(
    relay_track_id: u64,
    group_id: u64,
    object_count: u64,
    cause: EvictionCause,
) -> (line: String)
    ensures
        line@ == text::decimal_text(relay_track_id as nat) + ","@ + text::decimal_text(
            group_id as nat,
        ) + ","@ + text::decimal_text(object_count as nat) + ","@ + cause.spec_name() + "\n"@,
{
    let mut line: String = String::new();
    push_decimal(&mut line, relay_track_id);
    line.append(",");
    push_decimal(&mut line, group_id);
    line.append(",");
    push_decimal(&mut line, object_count);
    line.append(",");
    line.append(cause.name());
    line.append("\n");
    line
}

/// The oldest group is not newer than the newest, and the two come together.
pub proof fn law_bounds_are_ordered(
    keys: Seq<CacheKey>,
    relay_track_id: u64,
    oldest: Option<u64>,
    newest: Option<u64>,
)
    requires
        is_oldest(keys, relay_track_id, oldest),
        is_newest(keys, relay_track_id, newest),
    ensures
        oldest is Some <==> newest is Some,
        oldest matches Some(o) ==> (newest matches Some(n) && o <= n),
{
    if let Some(o) = oldest {
        assert(holds_group(keys, relay_track_id, o));
    }
    if let Some(n) = newest {
        assert(holds_group(keys, relay_track_id, n));
    }
}

/// The groups of other tracks do not move a track's bounds.
pub proof fn law_other_tracks_do_not_matter(
    keys: Seq<CacheKey>,
    other: CacheKey,
    relay_track_id: u64,
    oldest: Option<u64>,
)
    requires
        other.relay_track_id != relay_track_id,
    ensures
        is_oldest(keys.push(other), relay_track_id, oldest) <==> is_oldest(
            keys,
            relay_track_id,
            oldest,
        ),
{
    assert forall|g: u64|
        #![trigger holds_group(keys.push(other), relay_track_id, g)]
        #![trigger holds_group(keys, relay_track_id, g)]
        holds_group(keys.push(other), relay_track_id, g) <==> holds_group(
            keys,
            relay_track_id,
            g,
        ) by {
        let wanted = CacheKey { relay_track_id, group_id: g };
        if keys.contains(wanted) {
            let j = choose|j: int| 0 <= j < keys.len() && keys[j] == wanted;
            assert(keys.push(other)[j] == wanted);
        }
        if keys.push(other).contains(wanted) {
            let j = choose|j: int|
                0 <= j < keys.push(other).len() && keys.push(other)[j] == wanted;
            assert(keys[j] == wanted);
        }
    }
}

/// The oldest group of a track is cached, and no cached group of the track is older.
/// There is one wherever a group of the track is cached.
pub proof fn law_oldest_is_the_least(
    keys: Seq<CacheKey>,
    relay_track_id: u64,
    oldest: Option<u64>,
    i: int,
)
    requires
        is_oldest(keys, relay_track_id, oldest),
        0 <= i < keys.len(),
        keys[i].relay_track_id == relay_track_id,
    ensures
        oldest matches Some(oldest) && oldest <= keys[i].group_id && exists|j: int|
            0 <= j < keys.len() && (#[trigger] keys[j]).relay_track_id == relay_track_id
                && keys[j].group_id == oldest,
{
    assert(keys[i] == (CacheKey { relay_track_id, group_id: keys[i].group_id }));
    assert(holds_group(keys, relay_track_id, keys[i].group_id));
    let oldest = oldest->0;
    assert(holds_group(keys, relay_track_id, oldest));
    let j = choose|j: int|
        0 <= j < keys.len() && keys[j] == (CacheKey { relay_track_id, group_id: oldest });
    assert(keys[j].group_id == oldest);
}

/// The newest group of a track is cached, and no cached group of the track is newer.
/// There is one wherever a group of the track is cached.
pub proof fn law_newest_is_the_greatest(
    keys: Seq<CacheKey>,
    relay_track_id: u64,
    newest: Option<u64>,
    i: int,
)
    requires
        is_newest(keys, relay_track_id, newest),
        0 <= i < keys.len(),
        keys[i].relay_track_id == relay_track_id,
    ensures
        newest matches Some(newest) && keys[i].group_id <= newest && exists|j: int|
            0 <= j < keys.len() && (#[trigger] keys[j]).relay_track_id == relay_track_id
                && keys[j].group_id == newest,
{
    assert(keys[i] == (CacheKey { relay_track_id, group_id: keys[i].group_id }));
    assert(holds_group(keys, relay_track_id, keys[i].group_id));
    let newest = newest->0;
    assert(holds_group(keys, relay_track_id, newest));
    let j = choose|j: int|
        0 <= j < keys.len() && keys[j] == (CacheKey { relay_track_id, group_id: newest });
    assert(keys[j].group_id == newest);
}

/// A track of which nothing is cached has neither bound.
pub proof fn law_nothing_cached_has_no_bounds(
    keys: Seq<CacheKey>,
    relay_track_id: u64,
    oldest: Option<u64>,
    newest: Option<u64>,
)
    requires
        is_oldest(keys, relay_track_id, oldest),
        is_newest(keys, relay_track_id, newest),
        forall|i: int| 0 <= i < keys.len() ==> (#[trigger] keys[i]).relay_track_id != relay_track_id,
    ensures
        oldest is None,
        newest is None,
{
    if oldest is Some {
        assert(holds_group(keys, relay_track_id, oldest->0));
    }
    if newest is Some {
        assert(holds_group(keys, relay_track_id, newest->0));
    }
}

/// The bytes of a group are those of its objects, however it is cut.
pub proof fn law_group_bytes_add_up(first: Seq<u64>, second: Seq<u64>, len: u64)
    ensures
        sum_of(first + second) == sum_of(first) + sum_of(second),
        sum_of(seq![len]) == len,
        sum_of(Seq::<u64>::empty()) == 0,
    decreases second.len(),
{
    reveal_with_fuel(sum_of, 2);
    assert(seq![len].drop_last() =~= Seq::<u64>::empty());
    if second.len() == 0 {
        assert(first + second =~= first);
    } else {
        law_group_bytes_add_up(first, second.drop_last(), len);
        assert((first + second).drop_last() =~= first + second.drop_last());
    }
}

/// The text of a key names the track and then the group, each in decimal.
pub proof fn law_key_text_names_track_and_group(key: CacheKey)
    ensures
        ({
            let track = text::decimal_text(key.relay_track_id as nat);
            let group = text::decimal_text(key.group_id as nat);
            &&& key.text().len() == 13 + track.len() + group.len()
            &&& key.text().subrange(6, 6int + track.len()) == track
            &&& key.text().skip(13int + track.len()) == group
            &&& key.text().take(6) == seq!['t', 'r', 'a', 'c', 'k', ':']
            &&& key.text().subrange(6int + track.len(), 13int + track.len()) == seq![
                '_',
                'g',
                'r',
                'o',
                'u',
                'p',
                ':',
            ]
        }),
{
    reveal_strlit("track:");
    reveal_strlit("_group:");
    let track = text::decimal_text(key.relay_track_id as nat);
    let group = text::decimal_text(key.group_id as nat);
    assert(key.text().subrange(6, 6int + track.len()) =~= track);
    assert(key.text().skip(13int + track.len()) =~= group);
    assert(key.text().take(6) =~= seq!['t', 'r', 'a', 'c', 'k', ':']);
    assert(key.text().subrange(6int + track.len(), 13int + track.len()) =~= seq![
        '_',
        'g',
        'r',
        'o',
        'u',
        'p',
        ':',
    ]);
}

/// The name of a cause is its label in capitals.
pub proof fn law_name_is_the_label_in_capitals(cause: EvictionCause, i: int)
    requires
        0 <= i < cause.spec_name().len(),
    ensures
        cause.spec_name().len() == cause.spec_label().len(),
        'A' <= cause.spec_name()[i] <= 'Z',
        i == 0 ==> cause.spec_label()[i] == cause.spec_name()[i],
        i > 0 ==> cause.spec_label()[i] as int == cause.spec_name()[i] as int + 32,
{
    reveal_strlit("SIZE");
    reveal_strlit("Size");
    reveal_strlit("EXPIRED");
    reveal_strlit("Expired");
    reveal_strlit("EXPLICIT");
    reveal_strlit("Explicit");
    reveal_strlit("REPLACED");
    reveal_strlit("Replaced");
}

/// No two causes are called the same.
pub proof fn law_causes_are_told_apart(a: EvictionCause, b: EvictionCause)
    ensures
        a.spec_name() == b.spec_name() ==> a == b,
        a.spec_label() == b.spec_label() ==> a == b,
{
    reveal_strlit("SIZE");
    reveal_strlit("Size");
    reveal_strlit("EXPIRED");
    reveal_strlit("Expired");
    reveal_strlit("EXPLICIT");
    reveal_strlit("Explicit");
    reveal_strlit("REPLACED");
    reveal_strlit("Replaced");
    assert("SIZE"@.len() == 4 && "EXPIRED"@.len() == 7 && "EXPLICIT"@.len() == 8);
    assert("Size"@.len() == 4 && "Expired"@.len() == 7 && "Explicit"@.len() == 8);
    assert("REPLACED"@.len() == 8 && "Replaced"@.len() == 8);
    assert("EXPLICIT"@[1] != "REPLACED"@[1]);
    assert("Explicit"@[1] != "Replaced"@[1]);
}

} // verus!

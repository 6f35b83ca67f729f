//! Key lookup and replay-resistant nonce admission. Each client has a
//! bounded, time-windowed table of recently seen nonces; a nonce is
//! admitted at most once within the window. Keys are held behind a
//! secret-wrapping type that zeroes its memory on drop.

use crate::assoc::{
    assoc_lookup, lemma_assoc_found, lemma_assoc_none, lemma_assoc_push, lemma_assoc_update_other,
};
use crate::errors::StorageError;
use secrecy::ExposeSecret;
use vstd::prelude::*;
use vstd::slice::slice_to_vec;

verus! {

/// A stored client key, held in `secrecy::SecretSlice<u8>`: the bytes
/// are zeroed on drop and cannot be printed by accident. (The secrecy
/// type's own `Zeroize` bound keeps Verus from declaring it directly,
/// so it lives in this opaque struct.)
#[verifier::external_body]
pub struct SecretKey {
    inner: secrecy::SecretSlice<u8>,
}

/// The bytes a secret key wraps.
pub uninterp spec fn secret_seq(s: SecretKey) -> Seq<u8>;

/// Relies on `From<Vec<u8>> for secrecy::SecretSlice<u8>`: wraps the
/// bytes; the backing store is zeroed on drop and never displayed.
#[verifier::external_body]
pub(crate) fn secret_from_vec(v: Vec<u8>) -> (r: SecretKey)
    ensures
        secret_seq(r) == v@,
{
    SecretKey { inner: secrecy::SecretSlice::from(v) }
}

/// Relies on `secrecy::ExposeSecret::expose_secret`: the wrapped bytes.
#[verifier::external_body]
pub(crate) fn secret_expose(s: &SecretKey) -> (r: &[u8])
    ensures
        r@ == secret_seq(*s),
{
    s.inner.expose_secret()
}

/// The oldest timestamp still inside the window: `timestamp - ttl`,
/// floored at zero.
pub open spec fn cutoff_of(timestamp: u64, ttl_seconds: u64) -> int {
    if timestamp >= ttl_seconds {
        timestamp - ttl_seconds
    } else {
        0
    }
}

/// Dropping expired entries from the head: every leading entry whose
/// timestamp is strictly before the cutoff leaves; equal timestamps stay.
pub open spec fn evict_expired(entries: Seq<(u128, u64)>, cutoff: int) -> Seq<(u128, u64)>
    decreases entries.len(),
{
    if entries.len() > 0 && entries[0].1 < cutoff {
        evict_expired(entries.drop_first(), cutoff)
    } else {
        entries
    }
}

/// Some entry of the table carries this nonce.
pub open spec fn contains_nonce(entries: Seq<(u128, u64)>, nonce: u128) -> bool {
    exists|i: int| 0 <= i < entries.len() && (#[trigger] entries[i]).0 == nonce
}

/// What one admission call does to a client's table: evict expired
/// entries, refuse a replay, drop the oldest entry when full, append.
/// The second component is `true` exactly when the nonce was admitted.
pub open spec fn nonce_admission(
    entries: Seq<(u128, u64)>,
    nonce: u128,
    timestamp: u64,
    ttl_seconds: u64,
    max_per_client: usize,
) -> (Seq<(u128, u64)>, bool) {
    let kept = evict_expired(entries, cutoff_of(timestamp, ttl_seconds));
    if contains_nonce(kept, nonce) {
        (kept, false)
    } else {
        let bounded = if kept.len() >= max_per_client && kept.len() > 0 {
            kept.drop_first()
        } else {
            kept
        };
        (bounded.push((nonce, timestamp)), true)
    }
}

/// When the first `d` entries are expired and the `d`-th is not,
/// eviction is exactly dropping those `d` entries.
pub proof fn lemma_evict_skip(entries: Seq<(u128, u64)>, cutoff: int, d: int)
    requires
        0 <= d <= entries.len(),
        forall|j: int| 0 <= j < d ==> (#[trigger] entries[j]).1 < cutoff,
        d == entries.len() || entries[d].1 >= cutoff,
    ensures
        evict_expired(entries, cutoff) == entries.skip(d),
    decreases d,
{
    if d == 0 {
        assert(entries.skip(0) =~= entries);
    } else {
        lemma_evict_skip(entries.drop_first(), cutoff, d - 1);
        assert(entries.drop_first().skip(d - 1) =~= entries.skip(d));
    }
}

/// Eviction never removes a trailing entry that is still inside the
/// window: the last entry survives whenever its timestamp does.
pub proof fn lemma_evict_keeps_last(entries: Seq<(u128, u64)>, cutoff: int)
    requires
        entries.len() > 0,
        entries.last().1 >= cutoff,
    ensures
        evict_expired(entries, cutoff).len() > 0,
        evict_expired(entries, cutoff).last() == entries.last(),
    decreases entries.len(),
{
    if entries[0].1 < cutoff {
        lemma_evict_keeps_last(entries.drop_first(), cutoff);
    }
}

/// Replay rejection: a nonce the store admitted as fresh is refused
/// when the same client submits it again with any timestamp whose
/// window still covers the first admission.
pub proof fn lemma_replay_rejected(
    entries: Seq<(u128, u64)>,
    nonce: u128,
    ts1: u64,
    ts2: u64,
    ttl_seconds: u64,
    max_per_client: usize,
)
    requires
        nonce_admission(entries, nonce, ts1, ttl_seconds, max_per_client).1,
        cutoff_of(ts2, ttl_seconds) <= ts1,
    ensures
        !nonce_admission(
            nonce_admission(entries, nonce, ts1, ttl_seconds, max_per_client).0,
            nonce,
            ts2,
            ttl_seconds,
            max_per_client,
        ).1,
{
    let t1 = nonce_admission(entries, nonce, ts1, ttl_seconds, max_per_client).0;
    assert(t1.last() == (nonce, ts1));
    lemma_evict_keeps_last(t1, cutoff_of(ts2, ttl_seconds));
    let kept = evict_expired(t1, cutoff_of(ts2, ttl_seconds));
    assert(kept[kept.len() - 1].0 == nonce);
    assert(contains_nonce(kept, nonce));
}

/// Capacity eviction: when a client's table is full and a fresh nonce
/// arrives, the oldest surviving entry is dropped; provided its nonce
/// appears nowhere else in the table, it is then absent.
pub proof fn lemma_capacity_evicts_oldest(
    entries: Seq<(u128, u64)>,
    nonce: u128,
    timestamp: u64,
    ttl_seconds: u64,
    max_per_client: usize,
)
    requires
        ({
            let kept = evict_expired(entries, cutoff_of(timestamp, ttl_seconds));
            &&& kept.len() >= max_per_client
            &&& kept.len() > 0
            &&& !contains_nonce(kept, nonce)
            &&& forall|j: int| 1 <= j < kept.len() ==> (#[trigger] kept[j]).0 != kept[0].0
        }),
    ensures
        ({
            let kept = evict_expired(entries, cutoff_of(timestamp, ttl_seconds));
            !contains_nonce(
                nonce_admission(entries, nonce, timestamp, ttl_seconds, max_per_client).0,
                kept[0].0,
            )
        }),
{
    let kept = evict_expired(entries, cutoff_of(timestamp, ttl_seconds));
    let oldest = kept[0].0;
    let out = nonce_admission(entries, nonce, timestamp, ttl_seconds, max_per_client).0;
    assert(out =~= kept.drop_first().push((nonce, timestamp)));
    assert(nonce != oldest) by {
        assert(kept[0].0 == oldest);
    };
    assert forall|i: int| 0 <= i < out.len() implies (#[trigger] out[i]).0 != oldest by {
        if i < out.len() - 1 {
            assert(out[i] == kept[i + 1]);
        }
    };
}

/// Window expiry: once every entry of a client's table has fallen out
/// of the window, any nonce is admitted again, an earlier appearance of
/// the same value notwithstanding.
pub proof fn lemma_window_expiry_admits(
    entries: Seq<(u128, u64)>,
    nonce: u128,
    timestamp: u64,
    ttl_seconds: u64,
    max_per_client: usize,
)
    requires
        forall|j: int|
            0 <= j < entries.len() ==> (#[trigger] entries[j]).1 < cutoff_of(
                timestamp,
                ttl_seconds,
            ),
    ensures
        nonce_admission(entries, nonce, timestamp, ttl_seconds, max_per_client).1,
{
    lemma_evict_skip(entries, cutoff_of(timestamp, ttl_seconds), entries.len() as int);
    let kept = evict_expired(entries, cutoff_of(timestamp, ttl_seconds));
    assert(kept =~= Seq::<(u128, u64)>::empty());
    assert(!contains_nonce(kept, nonce));
}

/// The pluggable key and nonce backend of the authenticator. An
/// implementation may fail (`Err`), but a failed call leaves every
/// client's state as it was.
pub trait AuthStore {
    /// The key bytes stored for a client, if any.
    spec fn spec_key_of(&self, id: Seq<u8>) -> Option<Seq<u8>>;

    /// The nonce table of a client, oldest entry first.
    spec fn spec_nonces_of(&self, id: Seq<u8>) -> Seq<(u128, u64)>;

    /// The per-client table bound.
    spec fn spec_max_per_client(&self) -> usize;

    /// The client's key, if one was stored.
    fn get_key<'a>(&'a self, client_id: &[u8]) -> (r: Option<&'a SecretKey>)
        ensures
            match r {
                Some(k) => self.spec_key_of(client_id@) == Some(secret_seq(*k)),
                None => self.spec_key_of(client_id@) is None,
            },
    ;

    /// Admits the nonce into the client's table under the window and
    /// capacity rules; `Ok(false)` is a replay.
    fn insert_nonce(
        &mut self,
        client_id: &[u8],
        nonce: u128,
        timestamp: u64,
        ttl_seconds: u64,
    ) -> (r: Result<bool, StorageError>)
        ensures
            forall|id: Seq<u8>| final (self).spec_key_of(id) == old(self).spec_key_of(id),
            final (self).spec_max_per_client() == old(self).spec_max_per_client(),
            match r {
                Ok(fresh) => {
                    let outcome = nonce_admission(
                        old(self).spec_nonces_of(client_id@),
                        nonce,
                        timestamp,
                        ttl_seconds,
                        old(self).spec_max_per_client(),
                    );
                    &&& fresh == outcome.1
                    &&& final (self).spec_nonces_of(client_id@) == outcome.0
                    &&& forall|id: Seq<u8>|
                        id != client_id@ ==> final (self).spec_nonces_of(id) == old(
                            self,
                        ).spec_nonces_of(id)
                },
                Err(_) => forall|id: Seq<u8>|
                    final (self).spec_nonces_of(id) == old(self).spec_nonces_of(id),
            },
    ;

    /// Optional periodic garbage collection; may drop expired state.
    fn cleanup(&mut self) {
    }
}

/// Equality of two byte strings.
pub fn bytes_eq(a: &[u8], b: &[u8]) -> (r: bool)
    ensures
        r == (a@ == b@),
{
    if a.len() != b.len() {
        return false;
    }
    let mut i: usize = 0;
    while i < a.len()
        invariant
            a@.len() == b@.len(),
            i <= a@.len(),
            forall|j: int| 0 <= j < i ==> a@[j] == b@[j],
        decreases a@.len() - i,
    {
        if *vstd::slice::slice_index_get(a, i) != *vstd::slice::slice_index_get(b, i) {
            return false;
        }
        i = i + 1;
    }
    proof {
        assert(a@ =~= b@);
    }
    true
}

/// The in-memory backend: association lists keyed by client identifier,
/// one secret key and one bounded nonce table per client.
pub struct InMemoryStore {
    keys: Vec<(Vec<u8>, SecretKey)>,
    nonces: Vec<(Vec<u8>, Vec<(u128, u64)>)>,
    max_per_client: usize,
}

impl InMemoryStore {
    /// The stored key pairs as mathematical byte strings.
    pub closed spec fn keys_view(&self) -> Seq<(Seq<u8>, Seq<u8>)> {
        self.keys@.map_values(|p: (Vec<u8>, SecretKey)| (p.0@, secret_seq(p.1)))
    }

    /// The stored nonce tables as mathematical sequences.
    pub closed spec fn nonces_view(&self) -> Seq<(Seq<u8>, Seq<(u128, u64)>)> {
        self.nonces@.map_values(|p: (Vec<u8>, Vec<(u128, u64)>)| (p.0@, p.1@))
    }

    /// An empty store with the given per-client bound.
    pub fn new(max_per_client: usize) -> (r: Self)
        ensures
            forall|id: Seq<u8>| r.spec_key_of(id) is None,
            forall|id: Seq<u8>| r.spec_nonces_of(id) == Seq::<(u128, u64)>::empty(),
            r.spec_max_per_client() == max_per_client,
    {
        let r = InMemoryStore { keys: Vec::new(), nonces: Vec::new(), max_per_client };
        proof {
            assert forall|id: Seq<u8>| r.spec_key_of(id) is None by {
                lemma_assoc_none(r.keys_view(), id);
            };
            assert forall|id: Seq<u8>| r.spec_nonces_of(id) == Seq::<(u128, u64)>::empty() by {
                lemma_assoc_none(r.nonces_view(), id);
            };
        }
        r
    }

    /// The index of the client's key entry, first match.
    fn find_key_index(&self, client_id: &[u8]) -> (r: Option<usize>)
        ensures
            match r {
                Some(i) => i < self.keys_view().len() && self.keys_view()[i as int].0 == client_id@
                    && forall|j: int|
                    0 <= j < i ==> (#[trigger] self.keys_view()[j]).0 != client_id@,
                None => forall|j: int|
                    0 <= j < self.keys_view().len() ==> (#[trigger] self.keys_view()[j]).0
                        != client_id@,
            },
    {
        let mut i: usize = 0;
        let n = self.keys.len();
        while i < n
            invariant
                n == self.keys@.len(),
                i <= n,
                forall|j: int| 0 <= j < i ==> (#[trigger] self.keys_view()[j]).0 != client_id@,
            decreases n - i,
        {
            if bytes_eq(self.keys[i].0.as_slice(), client_id) {
                return Some(i);
            }
            i = i + 1;
        }
        None
    }

    /// The index of the client's nonce table, first match.
    fn find_nonce_index(&self, client_id: &[u8]) -> (r: Option<usize>)
        ensures
            match r {
                Some(i) => i < self.nonces_view().len() && self.nonces_view()[i as int].0
                    == client_id@ && forall|j: int|
                    0 <= j < i ==> (#[trigger] self.nonces_view()[j]).0 != client_id@,
                None => forall|j: int|
                    0 <= j < self.nonces_view().len() ==> (#[trigger] self.nonces_view()[j]).0
                        != client_id@,
            },
    {
        let mut i: usize = 0;
        let n = self.nonces.len();
        while i < n
            invariant
                n == self.nonces@.len(),
                i <= n,
                forall|j: int| 0 <= j < i ==> (#[trigger] self.nonces_view()[j]).0 != client_id@,
            decreases n - i,
        {
            if bytes_eq(self.nonces[i].0.as_slice(), client_id) {
                return Some(i);
            }
            i = i + 1;
        }
        None
    }

    /// Stores (or replaces) the client's key.
    pub fn insert_key(&mut self, client_id: &[u8], key: Vec<u8>)
        ensures
            final (self).spec_key_of(client_id@) == Some(key@),
            forall|id: Seq<u8>|
                id != client_id@ ==> final (self).spec_key_of(id) == old(self).spec_key_of(id),
            final (self).nonces_view() == old(self).nonces_view(),
            final (self).spec_max_per_client() == old(self).spec_max_per_client(),
    {
        let secret = secret_from_vec(key);
        match self.find_key_index(client_id) {
            Some(i) => {
                let (stored_id, _) = self.keys.remove(i);
                self.keys.insert(i, (stored_id, secret));
                proof {
                    let kv0 = old(self).keys_view();
                    let p = (client_id@, key@);
                    assert(self.keys_view() =~= kv0.update(i as int, p));
                    lemma_assoc_found(self.keys_view(), client_id@, i as int);
                    assert forall|id: Seq<u8>| id != client_id@ implies self.spec_key_of(id) == old(
                        self,
                    ).spec_key_of(id) by {
                        lemma_assoc_update_other(kv0, i as int, p, id);
                    };
                }
            },
            None => {
                let owned_id = slice_to_vec(client_id);
                self.keys.push((owned_id, secret));
                proof {
                    let kv0 = old(self).keys_view();
                    let p = (client_id@, key@);
                    assert(self.keys_view() =~= kv0.push(p));
                    lemma_assoc_none(kv0, client_id@);
                    lemma_assoc_push(kv0, p, client_id@);
                    assert forall|id: Seq<u8>| id != client_id@ implies self.spec_key_of(id) == old(
                        self,
                    ).spec_key_of(id) by {
                        lemma_assoc_push(kv0, p, id);
                    };
                }
            },
        }
    }
}

/// One admission pass over a single client's table, pure of the store.
fn admit_into_table(
    table: &Vec<(u128, u64)>,
    nonce: u128,
    timestamp: u64,
    ttl_seconds: u64,
    max_per_client: usize,
) -> (r: (Vec<(u128, u64)>, bool))
    ensures
        r.0@ == nonce_admission(table@, nonce, timestamp, ttl_seconds, max_per_client).0,
        r.1 == nonce_admission(table@, nonce, timestamp, ttl_seconds, max_per_client).1,
{
    let cutoff: u64 = if timestamp >= ttl_seconds {
        timestamp - ttl_seconds
    } else {
        0
    };
    let n = table.len();
    let mut d: usize = 0;
    while d < n && table[d].1 < cutoff
        invariant
            n == table@.len(),
            d <= n,
            cutoff == cutoff_of(timestamp, ttl_seconds),
            forall|j: int| 0 <= j < d ==> (#[trigger] table@[j]).1 < cutoff,
        decreases n - d,
    {
        d = d + 1;
    }
    proof {
        lemma_evict_skip(table@, cutoff as int, d as int);
    }
    let ghost kept = table@.skip(d as int);

    let mut replay: bool = false;
    let mut j: usize = d;
    while j < n
        invariant
            n == table@.len(),
            d <= j <= n,
            replay == exists|k: int| d <= k < j && (#[trigger] table@[k]).0 == nonce,
        decreases n - j,
    {
        if table[j].0 == nonce {
            replay = true;
        }
        j = j + 1;
    }
    proof {
        if replay {
            let k = choose|k: int| d <= k < n && (#[trigger] table@[k]).0 == nonce;
            assert(kept[k - d] == table@[k]);
            assert(contains_nonce(kept, nonce));
        } else {
            if contains_nonce(kept, nonce) {
                let x = choose|x: int| 0 <= x < kept.len() && (#[trigger] kept[x]).0 == nonce;
                assert(table@[d + x] == kept[x]);
            }
        }
    }
    let keep_count = n - d;
    let start: usize = if !replay && keep_count >= max_per_client && keep_count > 0 {
        d + 1
    } else {
        d
    };
    let mut out: Vec<(u128, u64)> = Vec::new();
    let mut t = start;
    while t < n
        invariant
            n == table@.len(),
            start <= t <= n,
            out@ == table@.subrange(start as int, t as int),
        decreases n - t,
    {
        let entry = table[t];
        out.push(entry);
        proof {
            assert(table@.subrange(start as int, t + 1) =~= table@.subrange(
                start as int,
                t as int,
            ).push(table@[t as int]));
        }
        t = t + 1;
    }
    if replay {
        proof {
            assert(out@ =~= kept);
        }
        (out, false)
    } else {
        out.push((nonce, timestamp));
        proof {
            let bounded = if kept.len() >= max_per_client && kept.len() > 0 {
                kept.drop_first()
            } else {
                kept
            };
            assert(table@.subrange(start as int, n as int) =~= bounded);
            assert(out@ =~= bounded.push((nonce, timestamp)));
        }
        (out, true)
    }
}

impl AuthStore for InMemoryStore {
    open spec fn spec_key_of(&self, id: Seq<u8>) -> Option<Seq<u8>> {
        assoc_lookup(self.keys_view(), id)
    }

    open spec fn spec_nonces_of(&self, id: Seq<u8>) -> Seq<(u128, u64)> {
        match assoc_lookup(self.nonces_view(), id) {
            Some(t) => t,
            None => Seq::empty(),
        }
    }

    closed spec fn spec_max_per_client(&self) -> usize {
        self.max_per_client
    }

    fn get_key<'a>(&'a self, client_id: &[u8]) -> (r: Option<&'a SecretKey>) {
        match self.find_key_index(client_id) {
            Some(i) => {
                proof {
                    lemma_assoc_found(self.keys_view(), client_id@, i as int);
                }
                Some(&self.keys[i].1)
            },
            None => {
                proof {
                    lemma_assoc_none(self.keys_view(), client_id@);
                }
                None
            },
        }
    }

    fn insert_nonce(
        &mut self,
        client_id: &[u8],
        nonce: u128,
        timestamp: u64,
        ttl_seconds: u64,
    ) -> (r: Result<bool, StorageError>)
        ensures
            r is Ok,
    {
        match self.find_nonce_index(client_id) {
            Some(i) => {
                proof {
                    lemma_assoc_found(self.nonces_view(), client_id@, i as int);
                }
                let (new_table, fresh) = admit_into_table(
                    &self.nonces[i].1,
                    nonce,
                    timestamp,
                    ttl_seconds,
                    self.max_per_client,
                );
                let (stored_id, _) = self.nonces.remove(i);
                self.nonces.insert(i, (stored_id, new_table));
                proof {
                    let nv0 = old(self).nonces_view();
                    let p = (client_id@, new_table@);
                    assert(self.nonces_view() =~= nv0.update(i as int, p));
                    lemma_assoc_found(self.nonces_view(), client_id@, i as int);
                    assert forall|id: Seq<u8>| id != client_id@ implies self.spec_nonces_of(id)
                        == old(self).spec_nonces_of(id) by {
                        lemma_assoc_update_other(nv0, i as int, p, id);
                    };
                    assert(self.keys_view() =~= old(self).keys_view());
                }
                Ok(fresh)
            },
            None => {
                proof {
                    lemma_assoc_none(self.nonces_view(), client_id@);
                }
                let empty_table: Vec<(u128, u64)> = Vec::new();
                let (new_table, fresh) = admit_into_table(
                    &empty_table,
                    nonce,
                    timestamp,
                    ttl_seconds,
                    self.max_per_client,
                );
                let owned_id = slice_to_vec(client_id);
                self.nonces.push((owned_id, new_table));
                proof {
                    let nv0 = old(self).nonces_view();
                    let p = (client_id@, new_table@);
                    assert(self.nonces_view() =~= nv0.push(p));
                    lemma_assoc_push(nv0, p, client_id@);
                    assert forall|id: Seq<u8>| id != client_id@ implies self.spec_nonces_of(id)
                        == old(self).spec_nonces_of(id) by {
                        lemma_assoc_push(nv0, p, id);
                    };
                    assert(self.keys_view() =~= old(self).keys_view());
                }
                Ok(fresh)
            },
        }
    }
}

} // verus!

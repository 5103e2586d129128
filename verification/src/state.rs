//! Mergeable run state: last-update timestamps, run-once markers, and
//! content-hash freshness records, with a dirty flag that tracks whether
//! anything needs persisting.

use std::hash::{Hash, Hasher};

use vstd::prelude::*;

use crate::config::Config;
use crate::strmap::StringMap;
use crate::timestamp::Timestamp;

verus! {

/// A stored content hash together with the moment it was recorded.
#[derive(Debug, Clone, Copy, PartialEq, Eq, Structural)]
pub struct Hashed {
    /// The last calculated hash.
    pub hash: u64,
    /// When it was last updated.
    pub updated: Timestamp,
}

/// The shape in which run state is persisted: the three maps, without the
/// dirty flag or configuration.
#[derive(Debug, Clone, PartialEq, Eq)]
pub struct DiskState {
    /// Last time each named thing was updated.
    pub last_update: StringMap<Timestamp>,
    /// Things that should only ever happen once.
    pub once: StringMap<Timestamp>,
    /// Content hashes recorded against state keys.
    pub hashes: StringMap<Hashed>,
}

impl DiskState {
    /// Convert into a live run state: clean, against the given configuration
    /// and current time.
    pub fn into_state(self, config: Config, now: Timestamp) -> (r: State)
        ensures
            !r.dirty,
            r.last_update@ == self.last_update@,
            r.once@ == self.once@,
            r.hashes@ == self.hashes@,
            r.config == config,
            r.now == now,
    {
        State {
            dirty: false,
            last_update: self.last_update,
            once: self.once,
            hashes: self.hashes,
            config,
            now,
        }
    }
}

impl Default for DiskState {
    /// Empty persisted state.
    fn default() -> (r: Self)
        ensures
            r.last_update@ =~= Map::<Seq<char>, Timestamp>::empty(),
            r.once@ =~= Map::<Seq<char>, Timestamp>::empty(),
            r.hashes@ =~= Map::<Seq<char>, Hashed>::empty(),
    {
        DiskState { last_update: StringMap::new(), once: StringMap::new(), hashes: StringMap::new() }
    }
}

/// The mathematical content of a run state.
#[verifier::ext_equal]
pub struct StateModel {
    pub dirty: bool,
    pub last_update: Map<Seq<char>, Timestamp>,
    pub once: Map<Seq<char>, Timestamp>,
    pub hashes: Map<Seq<char>, Hashed>,
    pub config: Config,
    pub now: Timestamp,
}

/// What extending a run state `s` with another `o` yields: a no-op when `o`
/// is clean, otherwise the union of the three maps with `o`'s bindings
/// winning, and the dirty flag set.
pub open spec fn merged(s: StateModel, o: StateModel) -> StateModel {
    if !o.dirty {
        s
    } else {
        StateModel {
            dirty: true,
            last_update: s.last_update.union_prefer_right(o.last_update),
            once: s.once.union_prefer_right(o.once),
            hashes: s.hashes.union_prefer_right(o.hashes),
            config: s.config,
            now: s.now,
        }
    }
}

/// A clean delta carries no bindings. Freshly created unit-local states have
/// this shape; state loaded from disk does not.
pub open spec fn is_delta(m: StateModel) -> bool {
    !m.dirty ==> m.last_update == Map::<Seq<char>, Timestamp>::empty() && m.once == Map::<
        Seq<char>,
        Timestamp,
    >::empty() && m.hashes == Map::<Seq<char>, Hashed>::empty()
}

/// Merging two deltas whose key sets are disjoint yields the same state in
/// either order.
pub proof fn lemma_merge_disjoint_commutes(s: StateModel, a: StateModel, b: StateModel)
    requires
        a.last_update.dom().disjoint(b.last_update.dom()),
        a.once.dom().disjoint(b.once.dom()),
        a.hashes.dom().disjoint(b.hashes.dom()),
    ensures
        merged(merged(s, a), b) == merged(merged(s, b), a),
{
    if a.dirty && b.dirty {
        assert(merged(merged(s, a), b).last_update =~= merged(merged(s, b), a).last_update);
        assert(merged(merged(s, a), b).once =~= merged(merged(s, b), a).once);
        assert(merged(merged(s, a), b).hashes =~= merged(merged(s, b), a).hashes);
        assert(merged(merged(s, a), b) =~= merged(merged(s, b), a));
    }
}

/// Merging is associative: folding deltas one by one into a base state is the
/// same as merging the deltas first. The earlier delta must be an honest
/// delta (clean implies empty).
pub proof fn lemma_merge_assoc(s: StateModel, a: StateModel, b: StateModel)
    requires
        is_delta(a),
    ensures
        merged(merged(s, a), b) == merged(s, merged(a, b)),
{
    if b.dirty {
        if a.dirty {
            assert(merged(merged(s, a), b) =~= merged(s, merged(a, b)));
        } else {
            assert(merged(a, b).last_update =~= b.last_update);
            assert(merged(a, b).once =~= b.once);
            assert(merged(a, b).hashes =~= b.hashes);
            assert(merged(merged(s, a), b) =~= merged(s, merged(a, b)));
        }
    }
}

/// On keys both deltas bind, the later merge wins; on keys only the earlier
/// dirty delta binds, its value survives the later merge.
pub proof fn lemma_merge_last_write_wins(s: StateModel, a: StateModel, b: StateModel, k: Seq<char>)
    requires
        b.dirty,
    ensures
        b.last_update.dom().contains(k) ==> merged(merged(s, a), b).last_update[k]
            == b.last_update[k],
        b.once.dom().contains(k) ==> merged(merged(s, a), b).once[k] == b.once[k],
        b.hashes.dom().contains(k) ==> merged(merged(s, a), b).hashes[k] == b.hashes[k],
        a.dirty && !b.last_update.dom().contains(k) && a.last_update.dom().contains(k) ==> merged(
            merged(s, a),
            b,
        ).last_update[k] == a.last_update[k],
        a.dirty && !b.once.dom().contains(k) && a.once.dom().contains(k) ==> merged(
            merged(s, a),
            b,
        ).once[k] == a.once[k],
        a.dirty && !b.hashes.dom().contains(k) && a.hashes.dom().contains(k) ==> merged(
            merged(s, a),
            b,
        ).hashes[k] == a.hashes[k],
{
}

/// A content hash recorded at `updated` is still fresh at `now` under the
/// given refresh interval. A record dated after `now` counts as fresh: the
/// age formula `now - updated < refresh` holds of a negative age, so a
/// record stored later in the same run never reads as stale.
pub open spec fn fresh_window(now: Timestamp, updated: Timestamp, refresh: u64) -> bool {
    updated.millis + refresh > now.millis
}

/// The facet a freshness check belongs to: which configured refresh
/// interval bounds the age of a stored record.
#[derive(Debug, Clone, Copy, PartialEq, Eq, Structural)]
pub enum Facet {
    /// Externally synchronised checkouts, refreshed rarely.
    Git,
    /// Package installations and similar content checks, refreshed often.
    Package,
}

/// The configured refresh interval for a facet, in milliseconds.
pub open spec fn spec_facet_refresh(config: Config, facet: Facet) -> u64 {
    match facet {
        Facet::Git => config.git_refresh,
        Facet::Package => config.package_refresh,
    }
}

/// The configured refresh interval for a facet, in milliseconds.
#[verifier::when_used_as_spec(spec_facet_refresh)]
pub fn facet_refresh(config: Config, facet: Facet) -> (r: u64)
    ensures
        r == spec_facet_refresh(config, facet),
{
    match facet {
        Facet::Git => config.git_refresh,
        Facet::Package => config.package_refresh,
    }
}

/// Run state: three maps of side-channel facts and a dirty flag that tracks
/// whether anything changed since it was loaded.
#[derive(Debug, Clone, PartialEq, Eq)]
pub struct State {
    /// Whether anything changed since this state was created or loaded.
    pub dirty: bool,
    /// Last time each named thing was updated.
    pub last_update: StringMap<Timestamp>,
    /// Things that should only ever happen once.
    pub once: StringMap<Timestamp>,
    /// Content hashes recorded against state keys.
    pub hashes: StringMap<Hashed>,
    /// The current configuration.
    pub config: Config,
    /// The current timestamp.
    pub now: Timestamp,
}

impl View for State {
    type V = StateModel;

    open spec fn view(&self) -> StateModel {
        StateModel {
            dirty: self.dirty,
            last_update: self.last_update@,
            once: self.once@,
            hashes: self.hashes@,
            config: self.config,
            now: self.now,
        }
    }
}

/// The digest fxhash computes over a list of strings.
pub uninterp spec fn fx_hash_of(value: Seq<Seq<char>>) -> u64;

/// Relies on fxhash::FxHasher64: the digest is computed from the fed bytes
/// alone, with a fixed seed and no per-process state, so equal strings give
/// equal digests.
#[verifier::external_body]
fn fx_hash_strings(value: &Vec<String>) -> (r: u64)
    ensures
        r == fx_hash_of(value.deep_view()),
{
    let mut hasher = fxhash::FxHasher64::default();
    value.hash(&mut hasher);
    hasher.finish()
}

impl State {
    /// A fresh, clean, empty state.
    pub fn new(config: Config, now: Timestamp) -> (r: Self)
        ensures
            !r.dirty,
            r.last_update@ =~= Map::<Seq<char>, Timestamp>::empty(),
            r.once@ =~= Map::<Seq<char>, Timestamp>::empty(),
            r.hashes@ =~= Map::<Seq<char>, Hashed>::empty(),
            r.config == config,
            r.now == now,
            is_delta(r@),
    {
        State {
            dirty: false,
            last_update: StringMap::new(),
            once: StringMap::new(),
            hashes: StringMap::new(),
            config,
            now,
        }
    }

    /// The last update timestamp recorded for `name`, if any.
    pub fn last_update(&self, name: &str) -> (r: Option<Timestamp>)
        ensures
            r == if self.last_update@.contains_key(name@) {
                Some(self.last_update@[name@])
            } else {
                None::<Timestamp>
            },
    {
        self.last_update.get(name)
    }

    /// Record that the thing called `name` was updated at the run timestamp
    /// `now` this state was created with — one moment per run, rather than a
    /// fresh clock reading per touch — and mark the state dirty.
    pub fn touch(&mut self, name: &str)
        ensures
            final(self).dirty,
            final(self).last_update@ == old(self).last_update@.insert(name@, old(self).now),
            final(self).once == old(self).once,
            final(self).hashes == old(self).hashes,
            final(self).config == old(self).config,
            final(self).now == old(self).now,
    {
        self.dirty = true;
        self.last_update.insert(name.to_owned(), self.now);
    }

    /// Whether the thing with the given id has ever run.
    pub fn has_run_once(&self, id: &str) -> (r: bool)
        ensures
            r == self.once@.contains_key(id@),
    {
        self.once.contains_key(id)
    }

    /// Record, at the run timestamp, that the thing with the given id has
    /// run, once and for all, and mark the state dirty.
    pub fn touch_once(&mut self, id: &str)
        ensures
            final(self).dirty,
            final(self).once@ == old(self).once@.insert(id@, old(self).now),
            final(self).last_update == old(self).last_update,
            final(self).hashes == old(self).hashes,
            final(self).config == old(self).config,
            final(self).now == old(self).now,
    {
        self.dirty = true;
        self.once.insert(id.to_owned(), self.now);
    }

    /// Whether the hash stored for `id` equals `hash` and was recorded
    /// recently enough under the facet's configured refresh interval.
    pub fn is_stored_hash_fresh(&self, facet: Facet, id: &str, hash: u64) -> (r: bool)
        ensures
            r == (self.hashes@.contains_key(id@) && self.hashes@[id@].hash == hash && fresh_window(
                self.now,
                self.hashes@[id@].updated,
                spec_facet_refresh(self.config, facet),
            )),
    {
        let stored = match self.hashes.get(id) {
            Some(stored) => stored,
            None => {
                return false;
            },
        };
        if stored.hash != hash {
            return false;
        }
        let refresh = facet_refresh(self.config, facet);
        if stored.updated.millis > self.now.millis {
            true
        } else {
            self.now.millis - stored.updated.millis < refresh
        }
    }

    /// Whether the value hashes to what is stored for `id`, recently enough
    /// under the facet's configured refresh interval: true exactly when a
    /// record is stored, its hash is the value's digest, and it is inside
    /// the window.
    pub fn is_hash_fresh_in(&self, facet: Facet, id: &str, value: &Vec<String>) -> (r: bool)
        ensures
            r == (self.hashes@.contains_key(id@) && self.hashes@[id@].hash == fx_hash_of(
                value.deep_view(),
            ) && fresh_window(
                self.now,
                self.hashes@[id@].updated,
                spec_facet_refresh(self.config, facet),
            )),
    {
        let hash = fx_hash_strings(value);
        self.is_stored_hash_fresh(facet, id, hash)
    }

    /// Whether the value hashes to what is stored for `id`, recently enough:
    /// true exactly when a record is stored, its hash is the value's digest,
    /// and it is inside the package refresh window.
    pub fn is_hash_fresh(&self, id: &str, value: &Vec<String>) -> (r: bool)
        ensures
            r == (self.hashes@.contains_key(id@) && self.hashes@[id@].hash == fx_hash_of(
                value.deep_view(),
            ) && fresh_window(
                self.now,
                self.hashes@[id@].updated,
                self.config.package_refresh,
            )),
    {
        self.is_hash_fresh_in(Facet::Package, id, value)
    }

    /// Store the given hash for `id`, recorded at the run timestamp, and
    /// mark the state dirty.
    pub fn set_hash(&mut self, id: &str, hash: u64)
        ensures
            final(self).dirty,
            final(self).hashes@ == old(self).hashes@.insert(
                id@,
                Hashed { hash, updated: old(self).now },
            ),
            final(self).last_update == old(self).last_update,
            final(self).once == old(self).once,
            final(self).config == old(self).config,
            final(self).now == old(self).now,
    {
        self.dirty = true;
        self.hashes.insert(id.to_owned(), Hashed { hash, updated: self.now });
    }

    /// Hash the value and store the digest for `id`, recorded at the run
    /// timestamp, marking the state dirty.
    pub fn touch_hash(&mut self, id: &str, value: &Vec<String>)
        ensures
            final(self).dirty,
            final(self).hashes@ == old(self).hashes@.insert(
                id@,
                Hashed { hash: fx_hash_of(value.deep_view()), updated: old(self).now },
            ),
            final(self).last_update == old(self).last_update,
            final(self).once == old(self).once,
            final(self).config == old(self).config,
            final(self).now == old(self).now,
    {
        let hash = fx_hash_strings(value);
        self.set_hash(id, hash);
    }

    /// Extend this state with another: a no-op when the other state is
    /// clean, otherwise a union of the three maps in which the other state's
    /// bindings win.
    pub fn extend(&mut self, other: State)
        ensures
            !other.dirty ==> *final(self) == *old(self),
            final(self)@ == merged(old(self)@, other@),
    {
        if !other.dirty {
            return ;
        }
        self.dirty = true;
        self.last_update.extend(other.last_update);
        self.once.extend(other.once);
        self.hashes.extend(other.hashes);
        proof {
            assert(self@ =~= merged(old(self)@, other@));
        }
    }

    /// The three maps, ready for persistence; nothing when the state is
    /// clean and there is nothing to write.
    pub fn serialize(self) -> (r: Option<DiskState>)
        ensures
            !self.dirty ==> r is None,
            self.dirty ==> (r matches Some(d) && d.last_update@ == self.last_update@ && d.once@
                == self.once@ && d.hashes@ == self.hashes@),
    {
        if !self.dirty {
            return None;
        }
        let State { last_update, once, hashes, .. } = self;
        Some(DiskState { last_update, once, hashes })
    }
}

} // verus!

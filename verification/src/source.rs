//! Sources and the registry that maps source ids to them.

use vstd::prelude::*;

use crate::error::SourceError;
use crate::error::SourceRegisterError;
use crate::sources::env::EnvSource;
use crate::sources::file::FileSource;
use crate::urn::{is_valid_source_id, valid_source_id};

verus! {

/// A source from which secret values can be retrieved.
///
/// Implementations look up a secret by `name` and return its raw bytes;
/// case sensitivity of `name` is their own affair.
pub trait Source: Send + Sync {
    /// Retrieves the raw bytes of the secret `name`.
    fn get(&self, name: &str) -> Result<Vec<u8>, SourceError>;
}

/// A source of the caller's own, boxed behind the [`Source`] trait.
///
/// Its contents are opaque: the registry carries the box as a whole from
/// registration to the caller that asks it for a secret, and nothing is said
/// of what the boxed source answers.
#[verifier::external_body]
pub struct CustomSource(Box<dyn Source>);

impl CustomSource {
    /// Boxes `source` with `Box::new`.
    #[verifier::external_body]
    pub fn new<S: Source + 'static>(source: S) -> Self {
        CustomSource(Box::new(source))
    }

    /// Calls the boxed source's [`Source::get`] for the secret `name`; what it
    /// answers is the source's own affair.
    #[verifier::external_body]
    pub fn get(&self, name: &str) -> Result<Vec<u8>, SourceError> {
        self.0.get(name)
    }
}

/// What a registry holds under a source id: one of the built-in sources, or a
/// source of the caller's own.
pub enum RegisteredSource {
    /// Environment variables.
    Env(EnvSource),
    /// Files.
    File(FileSource),
    /// A source implemented by the caller.
    Custom(CustomSource),
}

impl RegisteredSource {
    /// The caller's own source, when this is one.
    pub fn custom(&self) -> (res: Option<&CustomSource>)
        ensures
            match self {
                RegisteredSource::Custom(c) => res == Some(c),
                _ => res is None,
            },
    {
        match self {
            RegisteredSource::Custom(c) => Some(c),
            _ => None,
        }
    }
}

/// The id under which [`SourceRegistry::new`] registers the environment
/// source: `env`.
pub open spec fn env_id() -> Seq<char> {
    seq!['e', 'n', 'v']
}

/// One entry of a registry: the id, the source, and the number of the
/// registration that put the source there.
pub type Entry = (String, RegisteredSource, Ghost<nat>);

/// The entries of a registry with their ids as character sequences.
pub open spec fn entry_views(entries: Seq<Entry>) -> Seq<(Seq<char>, RegisteredSource)> {
    entries.map_values(|e: Entry| (e.0@, e.1))
}

/// The ids of a registry's entries with the numbers of their registrations.
pub open spec fn stamp_views(entries: Seq<Entry>) -> Seq<(Seq<char>, nat)> {
    entries.map_values(|e: Entry| (e.0@, e.2@))
}

/// The map that a sequence of entries stands for: later entries win.
pub open spec fn entry_map<V>(s: Seq<(Seq<char>, V)>) -> Map<Seq<char>, V>
    decreases s.len(),
{
    if s.len() == 0 {
        Map::empty()
    } else {
        entry_map(s.drop_last()).insert(s.last().0, s.last().1)
    }
}

/// `i` is the last entry with id `k`.
pub open spec fn is_last_with<V>(s: Seq<(Seq<char>, V)>, i: int, k: Seq<char>) -> bool {
    &&& 0 <= i < s.len()
    &&& s[i].0 == k
    &&& forall|j: int| i < j < s.len() ==> (#[trigger] s[j]).0 != k
}

/// The last entry with id `k` gives the map's value at `k`.
proof fn lemma_entry_map_last<V>(s: Seq<(Seq<char>, V)>, i: int, k: Seq<char>)
    requires
        is_last_with(s, i, k),
    ensures
        entry_map(s).contains_key(k),
        entry_map(s)[k] == s[i].1,
    decreases s.len(),
{
    if i < s.len() - 1 {
        let t = s.drop_last();
        assert(s[s.len() - 1].0 != k);
        assert forall|j: int| i < j < t.len() implies (#[trigger] t[j]).0 != k by {
            assert(t[j] == s[j]);
        }
        lemma_entry_map_last(t, i, k);
    }
}

/// Without an entry with id `k` the map has no key `k`.
proof fn lemma_entry_map_absent<V>(s: Seq<(Seq<char>, V)>, k: Seq<char>)
    requires
        forall|j: int| 0 <= j < s.len() ==> (#[trigger] s[j]).0 != k,
    ensures
        !entry_map(s).contains_key(k),
    decreases s.len(),
{
    if s.len() > 0 {
        let t = s.drop_last();
        assert forall|j: int| 0 <= j < t.len() implies (#[trigger] t[j]).0 != k by {
            assert(t[j] == s[j]);
        }
        lemma_entry_map_absent(t, k);
    }
}

/// Replacing the last entry with id `k` replaces the map's value at `k`.
proof fn lemma_entry_map_update<V>(s: Seq<(Seq<char>, V)>, i: int, k: Seq<char>, v: V)
    requires
        is_last_with(s, i, k),
    ensures
        entry_map(s.update(i, (k, v))) == entry_map(s).insert(k, v),
    decreases s.len(),
{
    let u = s.update(i, (k, v));
    if i == s.len() - 1 {
        assert(u.drop_last() =~= s.drop_last());
        assert(entry_map(u) =~= entry_map(s).insert(k, v));
    } else {
        let t = s.drop_last();
        assert forall|j: int| i < j < t.len() implies (#[trigger] t[j]).0 != k by {
            assert(t[j] == s[j]);
        }
        assert(s[s.len() - 1].0 != k);
        lemma_entry_map_update(t, i, k, v);
        assert(u.drop_last() =~= t.update(i, (k, v)));
        assert(entry_map(u) =~= entry_map(s).insert(k, v));
    }
}

/// Every value of the map that `s` stands for is below `bound` when every
/// entry's is.
proof fn lemma_entry_map_below(s: Seq<(Seq<char>, nat)>, bound: nat)
    requires
        forall|j: int| 0 <= j < s.len() ==> (#[trigger] s[j]).1 < bound,
    ensures
        forall|k: Seq<char>| #[trigger] entry_map(s).contains_key(k) ==> entry_map(s)[k] < bound,
    decreases s.len(),
{
    if s.len() > 0 {
        let t = s.drop_last();
        assert forall|j: int| 0 <= j < t.len() implies (#[trigger] t[j]).1 < bound by {
            assert(t[j] == s[j]);
        }
        lemma_entry_map_below(t, bound);
        assert(s[s.len() - 1].1 < bound);
        assert forall|k: Seq<char>| #[trigger] entry_map(s).contains_key(k) implies entry_map(s)[k] < bound by {
            if k != s.last().0 {
                assert(entry_map(t).contains_key(k));
            }
        }
    }
}

/// A registry that maps source ids to sources.
///
/// [`SourceRegistry::new`] registers the environment source under `env`.
/// Registering an id that is already in use replaces its source; an id that
/// a URN `source_id` could not hold is refused.
pub struct SourceRegistry {
    entries: Vec<Entry>,
    count: Ghost<nat>,
}

impl SourceRegistry {
    /// Every entry was put there by one of the registrations made so far.
    #[verifier::type_invariant]
    spec fn entries_are_past(&self) -> bool {
        forall|j: int| 0 <= j < self.entries@.len() ==> (#[trigger] self.entries@[j]).2@ < self.count@
    }

    /// The sources by id.
    pub closed spec fn sources(&self) -> Map<Seq<char>, RegisteredSource> {
        entry_map(entry_views(self.entries@))
    }

    /// For each id, the number of the registration that put its source
    /// there: registrations are numbered from 0 in the order in which they
    /// were made, the one of `new` first.
    pub closed spec fn registered_at(&self) -> Map<Seq<char>, nat> {
        entry_map(stamp_views(self.entries@))
    }

    /// How many registrations were made, that of `new` included.
    pub closed spec fn registrations(&self) -> nat {
        self.count@
    }

    /// Every source in the registry was put there by one of the
    /// registrations made so far.
    proof fn lemma_registered_in_past(&self)
        requires
            self.entries_are_past(),
        ensures
            forall|k: Seq<char>| #[trigger] self.registered_at().contains_key(k) ==> self.registered_at()[k]
                < self.registrations(),
    {
        let s = stamp_views(self.entries@);
        assert forall|j: int| 0 <= j < s.len() implies (#[trigger] s[j]).1 < self.count@ by {
            assert(self.entries@[j].2@ < self.count@);
        }
        lemma_entry_map_below(s, self.count@);
    }

    /// A registry with the environment source registered under `env`, by
    /// its first registration.
    pub fn new() -> (res: Self)
        ensures
            res.sources() == Map::<Seq<char>, RegisteredSource>::empty().insert(
                env_id(),
                RegisteredSource::Env(EnvSource),
            ),
            res.registered_at() == Map::<Seq<char>, nat>::empty().insert(env_id(), 0),
            res.registrations() == 1,
    {
        let id = "env";
        proof {
            reveal_strlit("env");
        }
        let mut entries: Vec<Entry> = Vec::new();
        entries.push((String::from_str(id), RegisteredSource::Env(EnvSource), Ghost(0nat)));
        let res = SourceRegistry { entries, count: Ghost(1nat) };
        assert(entry_views(res.entries@).drop_last() =~= Seq::<(Seq<char>, RegisteredSource)>::empty());
        assert(entry_views(res.entries@).last().0 =~= env_id());
        assert(entry_map(Seq::<(Seq<char>, RegisteredSource)>::empty()) =~= Map::empty());
        assert(res.sources() =~= Map::<Seq<char>, RegisteredSource>::empty().insert(
            env_id(),
            RegisteredSource::Env(EnvSource),
        ));
        assert(stamp_views(res.entries@).drop_last() =~= Seq::<(Seq<char>, nat)>::empty());
        assert(stamp_views(res.entries@).last().0 =~= env_id());
        assert(entry_map(Seq::<(Seq<char>, nat)>::empty()) =~= Map::empty());
        assert(res.registered_at() =~= Map::<Seq<char>, nat>::empty().insert(env_id(), 0));
        res
    }

    /// The index of the last entry with id `key`, if there is one.
    fn last_index_of(&self, key: &String) -> (res: Option<usize>)
        ensures
            match res {
                Some(i) => is_last_with(entry_views(self.entries@), i as int, key@),
                None => forall|j: int|
                    0 <= j < self.entries@.len() ==> (#[trigger] entry_views(self.entries@)[j]).0 != key@,
            },
    {
        let ghost s = entry_views(self.entries@);
        let mut i = self.entries.len();
        while i > 0
            invariant
                i <= self.entries@.len(),
                s == entry_views(self.entries@),
                forall|j: int| i <= j < s.len() ==> (#[trigger] s[j]).0 != key@,
            decreases i,
        {
            i = i - 1;
            if self.entries[i].0 == *key {
                return Some(i);
            }
        }
        None
    }

    /// Registers `entry` under `id`, replacing what `id` held; refuses an id
    /// that is not a valid URN `source_id`, leaving the registry as it was.
    fn insert_entry(&mut self, id: &str, entry: RegisteredSource) -> (res: Result<(), SourceRegisterError>)
        ensures
            valid_source_id(id@) ==> res is Ok && final(self).sources() == old(self).sources().insert(
                id@,
                entry,
            ) && final(self).registered_after(*old(self), id@),
            !valid_source_id(id@) ==> (res matches Err(e) && e@ == id@ && final(self).sources()
                == old(self).sources() && final(self).registered_at() == old(self).registered_at()
                && final(self).registrations() == old(self).registrations()),
    {
        proof {
            use_type_invariant(&*self);
            self.lemma_registered_in_past();
        }
        if !is_valid_source_id(id) {
            return Err(SourceRegisterError::InvalidSourceId(id.to_owned()));
        }
        let key = id.to_owned();
        let ghost s = entry_views(self.entries@);
        let ghost t = stamp_views(self.entries@);
        let ghost n = self.count@;
        let found = self.last_index_of(&key);
        let mut entries: Vec<Entry> = Vec::new();
        std::mem::swap(&mut self.entries, &mut entries);
        self.count = Ghost(n + 1);
        match found {
            Some(i) => {
                proof {
                    lemma_entry_map_update(s, i as int, id@, entry);
                    assert forall|j: int| i < j < t.len() implies (#[trigger] t[j]).0 != id@ by {
                        assert(t[j].0 == s[j].0);
                    }
                    assert(t[i as int].0 == s[i as int].0);
                    assert(is_last_with(t, i as int, id@));
                    lemma_entry_map_update(t, i as int, id@, n);
                }
                entries.set(i, (key, entry, Ghost(n)));
                assert(entry_views(entries@) =~= s.update(i as int, (id@, entry)));
                assert(stamp_views(entries@) =~= t.update(i as int, (id@, n)));
            },
            None => {
                entries.push((key, entry, Ghost(n)));
                assert(entry_views(entries@).drop_last() =~= s);
                assert(stamp_views(entries@).drop_last() =~= t);
            },
        }
        self.entries = entries;
        Ok(())
    }

    /// `self` is `before` after one more registration, under `id`: its
    /// number is that of the registrations made before, so what `id` holds
    /// now is the newest registration in the registry, later than every
    /// other and than the one that `id` held before, if any.
    pub open spec fn registered_after(&self, before: SourceRegistry, id: Seq<char>) -> bool {
        &&& self.registrations() == before.registrations() + 1
        &&& self.registered_at() == before.registered_at().insert(id, before.registrations())
        &&& forall|k: Seq<char>|
            #[trigger] self.registered_at().contains_key(k) && k != id ==> self.registered_at()[k]
                < self.registered_at()[id]
        &&& before.registered_at().contains_key(id) ==> before.registered_at()[id] < self.registered_at()[id]
    }

    /// Registers a source of the caller's own under `id`.
    ///
    /// `id` must be a valid URN `source_id`; an id in use is replaced.
    pub fn register_custom(&mut self, id: &str, source: CustomSource) -> (res: Result<(), SourceRegisterError>)
        ensures
            valid_source_id(id@) ==> res is Ok && final(self).sources() == old(self).sources().insert(
                id@,
                RegisteredSource::Custom(source),
            ) && final(self).registered_after(*old(self), id@),
            !valid_source_id(id@) ==> (res matches Err(e) && e@ == id@ && final(self).sources()
                == old(self).sources() && final(self).registered_at() == old(self).registered_at()
                && final(self).registrations() == old(self).registrations()),
    {
        self.insert_entry(id, RegisteredSource::Custom(source))
    }

    /// Registers a source of the caller's own under `id`, boxed as a
    /// [`CustomSource`].
    ///
    /// `id` must be a valid URN `source_id`; an id in use is replaced: what
    /// `id` holds afterwards is the source of this registration, the newest
    /// in the registry, and what it held before is gone.
    pub fn register<S: Source + 'static>(&mut self, id: &str, source: S) -> (res: Result<(), SourceRegisterError>)
        ensures
            valid_source_id(id@) ==> res is Ok && final(self).sources().dom() == old(self).sources().dom().insert(id@)
                && final(self).sources()[id@] is Custom
                && final(self).sources().remove(id@) == old(self).sources().remove(id@)
                && final(self).registered_after(*old(self), id@),
            !valid_source_id(id@) ==> (res matches Err(e) && e@ == id@ && final(self).sources()
                == old(self).sources() && final(self).registered_at() == old(self).registered_at()
                && final(self).registrations() == old(self).registrations()),
    {
        let res = self.register_custom(id, CustomSource::new(source));
        proof {
            if valid_source_id(id@) {
                assert(self.sources().remove(id@) =~= old(self).sources().remove(id@));
            }
        }
        res
    }

    /// Registers the environment source under `id`.
    pub fn register_env(&mut self, id: &str, source: EnvSource) -> (res: Result<(), SourceRegisterError>)
        ensures
            valid_source_id(id@) ==> res is Ok && final(self).sources() == old(self).sources().insert(
                id@,
                RegisteredSource::Env(source),
            ) && final(self).registered_after(*old(self), id@),
            !valid_source_id(id@) ==> (res matches Err(e) && e@ == id@ && final(self).sources()
                == old(self).sources() && final(self).registered_at() == old(self).registered_at()
                && final(self).registrations() == old(self).registrations()),
    {
        self.insert_entry(id, RegisteredSource::Env(source))
    }

    /// Registers a file source under `id`.
    pub fn register_file(&mut self, id: &str, source: FileSource) -> (res: Result<(), SourceRegisterError>)
        ensures
            valid_source_id(id@) ==> res is Ok && final(self).sources() == old(self).sources().insert(
                id@,
                RegisteredSource::File(source),
            ) && final(self).registered_after(*old(self), id@),
            !valid_source_id(id@) ==> (res matches Err(e) && e@ == id@ && final(self).sources()
                == old(self).sources() && final(self).registered_at() == old(self).registered_at()
                && final(self).registrations() == old(self).registrations()),
    {
        self.insert_entry(id, RegisteredSource::File(source))
    }

    /// The source registered under `source_id`, if any.
    pub fn get(&self, source_id: &str) -> (res: Option<&RegisteredSource>)
        ensures
            match res {
                Some(r) => self.sources().contains_key(source_id@) && *r == self.sources()[source_id@],
                None => !self.sources().contains_key(source_id@),
            },
    {
        let key = source_id.to_owned();
        let ghost s = entry_views(self.entries@);
        match self.last_index_of(&key) {
            Some(i) => {
                proof {
                    lemma_entry_map_last(s, i as int, key@);
                }
                Some(&self.entries[i].1)
            },
            None => {
                proof {
                    lemma_entry_map_absent(s, key@);
                }
                None
            },
        }
    }
}

impl Default for SourceRegistry {
    fn default() -> (res: Self)
        ensures
            res.sources() == Map::<Seq<char>, RegisteredSource>::empty().insert(
                env_id(),
                RegisteredSource::Env(EnvSource),
            ),
            res.registered_at() == Map::<Seq<char>, nat>::empty().insert(env_id(), 0),
            res.registrations() == 1,
    {
        SourceRegistry::new()
    }
}

/// Registering twice under one id keeps the second source: after one
/// registration under `id` and then another, what `id` holds is the second,
/// made after the first, which is gone; every other id holds what it held
/// before both.
pub proof fn law_second_registration_replaces_first(
    first: SourceRegistry,
    middle: SourceRegistry,
    last: SourceRegistry,
    id: Seq<char>,
    other: Seq<char>,
)
    requires
        middle.registered_after(first, id),
        last.registered_after(middle, id),
    ensures
        last.registered_at().contains_key(id),
        last.registered_at()[id] == middle.registrations(),
        middle.registered_at()[id] == first.registrations(),
        middle.registered_at()[id] < last.registered_at()[id],
        other != id ==> last.registered_at().contains_key(other) == first.registered_at().contains_key(other),
        other != id && first.registered_at().contains_key(other) ==> last.registered_at()[other]
            == first.registered_at()[other],
{
}

/// What a registry gives back after a registration: registering `entry`
/// under a valid `id` (the change that `register_env`, `register_file` and
/// `register_custom` make) makes `get(id)` find exactly `entry`, and leaves
/// what every other id finds as it was.
pub proof fn law_get_after_register(
    before: SourceRegistry,
    after: SourceRegistry,
    id: Seq<char>,
    entry: RegisteredSource,
    other: Seq<char>,
)
    requires
        valid_source_id(id),
        after.sources() == before.sources().insert(id, entry),
    ensures
        after.sources().contains_key(id),
        after.sources()[id] == entry,
        other != id ==> after.sources().contains_key(other) == before.sources().contains_key(other),
        other != id && before.sources().contains_key(other) ==> after.sources()[other]
            == before.sources()[other],
{
}

} // verus!

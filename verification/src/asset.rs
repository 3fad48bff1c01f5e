//! Asset bookkeeping: metadata describing assets, loaders that build an asset
//! from its metadata, and the assets built, each kept under its kind and
//! identifier.
use vstd::prelude::*;

use crate::assoc::{assoc_wf, lemma_assoc_absent, lemma_assoc_at, lemma_assoc_empty, lemma_assoc_push};
use crate::text::str_equal;

verus! {

/// Errors of the core services.
#[derive(Clone, Copy, Debug, PartialEq, Eq, Structural)]
pub enum CoreError {
    AssetLoaderNotFound,
    AssetStorageNotFound,
    AssetNotFound,
    AssetDowncastError,
    AssetDescriptionFileNotFound,
    AssetMetadataNotFound,
    CurrentDirInaccessible,
}

/// The description of an asset: its identifier, its kind, free-form
/// key/value metadata and the directory it was described in.
pub struct AssetMetadata {
    pub identifier: String,
    pub kind: String,
    pub metadata: Vec<(String, String)>,
    pub asset_path: String,
}

/// The value of `key` after reading the key/value pairs `entries` in order:
/// a later pair for a key replaces an earlier one.
pub open spec fn metadata_value(entries: Seq<(String, String)>, key: Seq<char>) -> Option<String>
    decreases entries.len(),
{
    if entries.len() == 0 {
        None
    } else if entries.last().0@ == key {
        Some(entries.last().1)
    } else {
        metadata_value(entries.drop_last(), key)
    }
}

impl AssetMetadata {
    /// The value of the free-form metadata `key`, if any.
    pub fn metadata_value(&self, key: &str) -> (r: Option<&String>)
        ensures
            match r {
                Some(v) => metadata_value(self.metadata@, key@) == Some(*v),
                None => metadata_value(self.metadata@, key@) is None,
            },
    {
        let ghost e = self.metadata@;
        let mut i: usize = self.metadata.len();
        assert(e.take(i as int) =~= e);
        while i > 0
            invariant
                i <= e.len(),
                e == self.metadata@,
                metadata_value(e, key@) == metadata_value(e.take(i as int), key@),
            decreases i,
        {
            assert(e.take(i as int).drop_last() =~= e.take(i - 1));
            if str_equal(self.metadata[i - 1].0.as_str(), key) {
                return Some(&self.metadata[i - 1].1);
            }
            i = i - 1;
        }
        None
    }
}

/// Keeps asset metadata, asset loaders by asset kind, and loaded assets by
/// kind and identifier.
pub struct AssetStore<A, L> {
    storage_kinds: Vec<u64>,
    asset_kinds: Vec<u64>,
    asset_ids: Vec<String>,
    asset_values: Vec<A>,
    assets_model: Ghost<Map<(u64, Seq<char>), A>>,
    loader_kinds: Vec<u64>,
    loaders: Vec<L>,
    loaders_model: Ghost<Map<u64, L>>,
    metadata: Vec<AssetMetadata>,
    metadata_model: Ghost<Map<Seq<char>, AssetMetadata>>,
}

/// Whether `loader` can be called on any metadata.
pub open spec fn loader_total<A, L: Fn(&AssetMetadata) -> A>(loader: L) -> bool {
    forall|m: &AssetMetadata| #[trigger] call_requires(loader, (m,))
}

/// The loaders after registering `regs` in order; a later registration for a
/// kind replaces an earlier one.
pub open spec fn registered<L>(old: Map<u64, L>, regs: Seq<(u64, L)>) -> Map<u64, L>
    decreases regs.len(),
{
    if regs.len() == 0 {
        old
    } else {
        registered(old, regs.drop_last()).insert(regs.last().0, regs.last().1)
    }
}

impl<A, L: Fn(&AssetMetadata) -> A> AssetStore<A, L> {
    closed spec fn asset_keys(&self) -> Seq<(u64, Seq<char>)> {
        Seq::new(self.asset_kinds@.len(), |i: int| (self.asset_kinds@[i], self.asset_ids@[i]@))
    }

    closed spec fn metadata_keys(&self) -> Seq<Seq<char>> {
        Seq::new(self.metadata@.len(), |i: int| self.metadata@[i].identifier@)
    }

    /// The asset kinds for which a storage was opened.
    pub closed spec fn storages(&self) -> Set<u64> {
        self.storage_kinds@.to_set()
    }

    /// The assets held, by kind and identifier.
    pub closed spec fn assets(&self) -> Map<(u64, Seq<char>), A> {
        self.assets_model@
    }

    /// The loaders, by asset kind.
    pub closed spec fn loaders_map(&self) -> Map<u64, L> {
        self.loaders_model@
    }

    /// The metadata, by identifier.
    pub closed spec fn metadata_map(&self) -> Map<Seq<char>, AssetMetadata> {
        self.metadata_model@
    }

    /// Internal consistency.
    pub closed spec fn wf(&self) -> bool {
        &&& self.storage_kinds@.no_duplicates()
        &&& self.asset_kinds@.len() == self.asset_ids@.len()
        &&& assoc_wf(self.asset_keys(), self.asset_values@, self.assets_model@)
        &&& forall|i: int| 0 <= i < self.asset_kinds@.len() ==> self.storage_kinds@.contains(#[trigger] self.asset_kinds@[i])
        &&& assoc_wf(self.loader_kinds@, self.loaders@, self.loaders_model@)
        &&& forall|i: int| 0 <= i < self.loaders@.len() ==> loader_total(#[trigger] self.loaders@[i])
        &&& assoc_wf(self.metadata_keys(), self.metadata@, self.metadata_model@)
    }

    /// Whether an asset of kind `kind` named `identifier` is held.
    pub open spec fn holds(&self, kind: u64, identifier: Seq<char>) -> bool {
        self.storages().contains(kind) && self.assets().contains_key((kind, identifier))
    }

    /// An empty store.
    pub fn new() -> (s: Self)
        ensures
            s.wf(),
            s.storages() == Set::<u64>::empty(),
            s.assets() == Map::<(u64, Seq<char>), A>::empty(),
            s.loaders_map() == Map::<u64, L>::empty(),
            s.metadata_map() == Map::<Seq<char>, AssetMetadata>::empty(),
    {
        let s = AssetStore {
            storage_kinds: Vec::new(),
            asset_kinds: Vec::new(),
            asset_ids: Vec::new(),
            asset_values: Vec::new(),
            assets_model: Ghost(Map::empty()),
            loader_kinds: Vec::new(),
            loaders: Vec::new(),
            loaders_model: Ghost(Map::empty()),
            metadata: Vec::new(),
            metadata_model: Ghost(Map::empty()),
        };
        proof {
            lemma_assoc_empty::<u64, L>();
            lemma_assoc_empty::<(u64, Seq<char>), A>();
            lemma_assoc_empty::<Seq<char>, AssetMetadata>();
            assert(s.asset_keys() =~= Seq::<(u64, Seq<char>)>::empty());
            assert(s.metadata_keys() =~= Seq::<Seq<char>>::empty());
            assert(s.storage_kinds@.to_set() =~= Set::<u64>::empty());
        }
        s
    }

    fn find_loader(&self, kind: u64) -> (r: Option<usize>)
        requires
            self.wf(),
        ensures
            match r {
                Some(i) => i < self.loader_kinds@.len() && self.loader_kinds@[i as int] == kind,
                None => !self.loader_kinds@.contains(kind),
            },
    {
        let mut i: usize = 0;
        while i < self.loader_kinds.len()
            invariant
                i <= self.loader_kinds@.len(),
                forall|j: int| 0 <= j < i ==> self.loader_kinds@[j] != kind,
            decreases self.loader_kinds@.len() - i,
        {
            if self.loader_kinds[i] == kind {
                return Some(i);
            }
            i = i + 1;
        }
        None
    }

    fn find_storage(&self, kind: u64) -> (b: bool)
        ensures
            b == self.storage_kinds@.contains(kind),
    {
        let mut i: usize = 0;
        while i < self.storage_kinds.len()
            invariant
                i <= self.storage_kinds@.len(),
                forall|j: int| 0 <= j < i ==> self.storage_kinds@[j] != kind,
            decreases self.storage_kinds@.len() - i,
        {
            if self.storage_kinds[i] == kind {
                return true;
            }
            i = i + 1;
        }
        false
    }

    fn find_asset(&self, kind: u64, identifier: &str) -> (r: Option<usize>)
        requires
            self.wf(),
        ensures
            match r {
                Some(i) => i < self.asset_kinds@.len() && self.asset_keys()[i as int] == (kind, identifier@),
                None => !self.asset_keys().contains((kind, identifier@)),
            },
    {
        let mut i: usize = 0;
        while i < self.asset_kinds.len()
            invariant
                self.wf(),
                i <= self.asset_kinds@.len(),
                forall|j: int| 0 <= j < i ==> self.asset_keys()[j] != (kind, identifier@),
            decreases self.asset_kinds@.len() - i,
        {
            if self.asset_kinds[i] == kind && str_equal(self.asset_ids[i].as_str(), identifier) {
                return Some(i);
            }
            i = i + 1;
        }
        None
    }

    fn find_metadata(&self, identifier: &str) -> (r: Option<usize>)
        requires
            self.wf(),
        ensures
            match r {
                Some(i) => i < self.metadata@.len() && self.metadata_keys()[i as int] == identifier@,
                None => !self.metadata_keys().contains(identifier@),
            },
    {
        let mut i: usize = 0;
        while i < self.metadata.len()
            invariant
                self.wf(),
                i <= self.metadata@.len(),
                forall|j: int| 0 <= j < i ==> self.metadata_keys()[j] != identifier@,
            decreases self.metadata@.len() - i,
        {
            if str_equal(self.metadata[i].identifier.as_str(), identifier) {
                return Some(i);
            }
            i = i + 1;
        }
        None
    }

    /// Registers `loader` as the loader of assets of kind `kind`.
    pub fn register_loader(&mut self, kind: u64, loader: L)
        requires
            old(self).wf(),
            loader_total(loader),
        ensures
            final(self).wf(),
            final(self).loaders_map() == old(self).loaders_map().insert(kind, loader),
            final(self).storages() == old(self).storages(),
            final(self).assets() == old(self).assets(),
            final(self).metadata_map() == old(self).metadata_map(),
    {
        match self.find_loader(kind) {
            Some(i) => {
                proof {
                    crate::assoc::lemma_assoc_set(self.loader_kinds@, self.loaders@, self.loaders_model@, i as int, loader);
                }
                self.loaders.set(i, loader);
                self.loaders_model = Ghost(self.loaders_model@.insert(kind, loader));
            },
            None => {
                proof {
                    lemma_assoc_push(self.loader_kinds@, self.loaders@, self.loaders_model@, kind, loader);
                }
                self.loader_kinds.push(kind);
                self.loaders.push(loader);
                self.loaders_model = Ghost(self.loaders_model@.insert(kind, loader));
            },
        }
    }

    /// Registers each loader of `loaders` for its kind, in order.
    pub fn register_loaders(&mut self, loaders: Vec<(u64, L)>)
        requires
            old(self).wf(),
            forall|i: int| 0 <= i < loaders@.len() ==> loader_total(#[trigger] loaders@[i].1),
        ensures
            final(self).wf(),
            final(self).loaders_map() == registered(old(self).loaders_map(), loaders@),
            final(self).storages() == old(self).storages(),
            final(self).assets() == old(self).assets(),
            final(self).metadata_map() == old(self).metadata_map(),
    {
        let ghost regs = loaders@;
        let mut rest = loaders;
        let n = rest.len();
        let mut i: usize = 0;
        assert(regs.take(0) =~= Seq::<(u64, L)>::empty());
        assert(regs.skip(0) =~= regs);
        while i < n
            invariant
                n == regs.len(),
                i <= n,
                rest@ == regs.skip(i as int),
                forall|j: int| 0 <= j < regs.len() ==> loader_total(#[trigger] regs[j].1),
                self.wf(),
                self.loaders_map() == registered(old(self).loaders_map(), regs.take(i as int)),
                self.storages() == old(self).storages(),
                self.assets() == old(self).assets(),
                self.metadata_map() == old(self).metadata_map(),
            decreases n - i,
        {
            let (kind, loader) = rest.remove(0);
            assert(regs.skip(i as int)[0] == regs[i as int]);
            assert(rest@ =~= regs.skip(i + 1));
            assert(regs.take(i + 1).drop_last() =~= regs.take(i as int));
            self.register_loader(kind, loader);
            i = i + 1;
        }
        assert(regs.take(n as int) =~= regs);
    }

    /// Whether an asset of kind `kind` named `identifier` is held.
    pub fn has_asset(&self, kind: u64, identifier: &str) -> (b: bool)
        requires
            self.wf(),
        ensures
            b == self.holds(kind, identifier@),
    {
        if !self.find_storage(kind) {
            return false;
        }
        match self.find_asset(kind, identifier) {
            Some(i) => {
                proof { lemma_assoc_at(self.asset_keys(), self.asset_values@, self.assets_model@, i as int); }
                true
            },
            None => {
                proof { lemma_assoc_absent(self.asset_keys(), self.asset_values@, self.assets_model@, (kind, identifier@)); }
                false
            },
        }
    }

    /// Records the metadata of an asset, replacing metadata with the same
    /// identifier.
    pub fn add_asset_metadata(&mut self, asset_metadata: AssetMetadata)
        requires
            old(self).wf(),
        ensures
            final(self).wf(),
            final(self).metadata_map() == old(self).metadata_map().insert(asset_metadata.identifier@, asset_metadata),
            final(self).storages() == old(self).storages(),
            final(self).assets() == old(self).assets(),
            final(self).loaders_map() == old(self).loaders_map(),
    {
        let ghost key = asset_metadata.identifier@;
        let ghost md = asset_metadata;
        match self.find_metadata(asset_metadata.identifier.as_str()) {
            Some(i) => {
                proof {
                    crate::assoc::lemma_assoc_set(self.metadata_keys(), self.metadata@, self.metadata_model@, i as int, md);
                }
                self.metadata.set(i, asset_metadata);
                self.metadata_model = Ghost(self.metadata_model@.insert(key, md));
                assert(self.metadata_keys() =~= old(self).metadata_keys());
            },
            None => {
                proof {
                    lemma_assoc_push(self.metadata_keys(), self.metadata@, self.metadata_model@, key, md);
                }
                self.metadata.push(asset_metadata);
                self.metadata_model = Ghost(self.metadata_model@.insert(key, md));
                assert(self.metadata_keys() =~= old(self).metadata_keys().push(key));
            },
        }
    }

    fn open_storage(&mut self, kind: u64)
        requires
            old(self).wf(),
        ensures
            final(self).wf(),
            final(self).storages() == old(self).storages().insert(kind),
            final(self).assets() == old(self).assets(),
            final(self).loaders_map() == old(self).loaders_map(),
            final(self).metadata_map() == old(self).metadata_map(),
            final(self).asset_kinds@ == old(self).asset_kinds@,
            final(self).asset_ids@ == old(self).asset_ids@,
            final(self).asset_values@ == old(self).asset_values@,
            final(self).loaders@ == old(self).loaders@,
            final(self).loader_kinds@ == old(self).loader_kinds@,
            final(self).metadata@ == old(self).metadata@,
    {
        if !self.find_storage(kind) {
            let ghost before = self.storage_kinds@;
            self.storage_kinds.push(kind);
            proof {
                assert forall|a: int, b: int| 0 <= a < b < self.storage_kinds@.len() implies
                    self.storage_kinds@[a] != self.storage_kinds@[b] by {
                    if b == before.len() {
                        assert(before.contains(before[a]));
                    }
                }
                assert forall|i: int| 0 <= i < self.asset_kinds@.len() implies self.storage_kinds@.contains(#[trigger] self.asset_kinds@[i]) by {
                    let t = choose|t: int| 0 <= t < before.len() && before[t] == self.asset_kinds@[i];
                    assert(self.storage_kinds@[t] == before[t]);
                }
                assert forall|x: u64| #[trigger] self.storage_kinds@.to_set().contains(x) == (before.to_set().contains(x) || x == kind) by {
                    if before.contains(x) {
                        let t = choose|t: int| 0 <= t < before.len() && before[t] == x;
                        assert(self.storage_kinds@[t] == x);
                    }
                    if x == kind {
                        assert(self.storage_kinds@[before.len() as int] == kind);
                    }
                    if self.storage_kinds@.contains(x) {
                        let t = choose|t: int| 0 <= t < self.storage_kinds@.len() && self.storage_kinds@[t] == x;
                        if t < before.len() {
                            assert(before[t] == x);
                        }
                    }
                }
                assert(self.storages() =~= old(self).storages().insert(kind));
            }
        } else {
            assert(self.storages() =~= old(self).storages().insert(kind));
        }
    }

    fn put_asset(&mut self, kind: u64, identifier: String, asset: A)
        requires
            old(self).wf(),
            old(self).storages().contains(kind),
        ensures
            final(self).wf(),
            final(self).storages() == old(self).storages(),
            final(self).assets() == old(self).assets().insert((kind, identifier@), asset),
            final(self).loaders_map() == old(self).loaders_map(),
            final(self).metadata_map() == old(self).metadata_map(),
    {
        let ghost key = (kind, identifier@);
        match self.find_asset(kind, identifier.as_str()) {
            Some(i) => {
                proof {
                    crate::assoc::lemma_assoc_set(self.asset_keys(), self.asset_values@, self.assets_model@, i as int, asset);
                }
                self.asset_values.set(i, asset);
                self.assets_model = Ghost(self.assets_model@.insert(key, asset));
            },
            None => {
                proof {
                    lemma_assoc_push(self.asset_keys(), self.asset_values@, self.assets_model@, key, asset);
                }
                self.asset_kinds.push(kind);
                self.asset_ids.push(identifier);
                self.asset_values.push(asset);
                self.assets_model = Ghost(self.assets_model@.insert(key, asset));
                proof {
                    assert(self.asset_keys() =~= old(self).asset_keys().push(key));
                    assert forall|i: int| 0 <= i < self.asset_kinds@.len() implies self.storage_kinds@.contains(#[trigger] self.asset_kinds@[i]) by {
                        if i < old(self).asset_kinds@.len() {
                            assert(self.asset_kinds@[i] == old(self).asset_kinds@[i]);
                        } else {
                            assert(old(self).storage_kinds@.to_set().contains(kind));
                        }
                    }
                }
            },
        }
    }

    /// Loads the asset of kind `kind` named `identifier` with the loader of
    /// that kind, unless it is held already.
    pub fn load(&mut self, kind: u64, identifier: &str) -> (r: Result<(), CoreError>)
        requires
            old(self).wf(),
        ensures
            final(self).wf(),
            final(self).loaders_map() == old(self).loaders_map(),
            final(self).metadata_map() == old(self).metadata_map(),
            old(self).holds(kind, identifier@) ==> r is Ok && final(self).storages() == old(self).storages()
                && final(self).assets() == old(self).assets(),
            !old(self).holds(kind, identifier@) && !old(self).metadata_map().contains_key(identifier@) ==> r
                == Err::<(), CoreError>(CoreError::AssetMetadataNotFound) && final(self).storages()
                == old(self).storages() && final(self).assets() == old(self).assets(),
            !old(self).holds(kind, identifier@) && old(self).metadata_map().contains_key(identifier@) ==> {
                &&& final(self).storages() == old(self).storages().insert(kind)
                &&& !old(self).loaders_map().contains_key(kind) ==> r == Err::<(), CoreError>(
                    CoreError::AssetLoaderNotFound,
                ) && final(self).assets() == old(self).assets() && !final(self).holds(kind, identifier@)
                &&& old(self).loaders_map().contains_key(kind) ==> {
                    &&& r is Ok
                    &&& final(self).assets().dom() == old(self).assets().dom().insert((kind, identifier@))
                    &&& forall|key: (u64, Seq<char>)| key != (kind, identifier@) && #[trigger] old(self).assets().contains_key(key)
                        ==> final(self).assets()[key] == old(self).assets()[key]
                    &&& call_ensures(
                        old(self).loaders_map()[kind],
                        (&old(self).metadata_map()[identifier@],),
                        final(self).assets()[(kind, identifier@)],
                    )
                }
            },
    {
        if self.has_asset(kind, identifier) {
            return Ok(());
        }
        let mi = match self.find_metadata(identifier) {
            Some(mi) => mi,
            None => {
                proof { lemma_assoc_absent(self.metadata_keys(), self.metadata@, self.metadata_model@, identifier@); }
                return Err(CoreError::AssetMetadataNotFound);
            },
        };
        proof { lemma_assoc_at(self.metadata_keys(), self.metadata@, self.metadata_model@, mi as int); }
        self.open_storage(kind);
        let li = match self.find_loader(kind) {
            Some(li) => li,
            None => {
                proof { lemma_assoc_absent(self.loader_kinds@, self.loaders@, self.loaders_model@, kind); }
                return Err(CoreError::AssetLoaderNotFound);
            },
        };
        proof {
            lemma_assoc_at(self.loader_kinds@, self.loaders@, self.loaders_model@, li as int);
            assert(loader_total(self.loaders@[li as int]));
            assert(call_requires(self.loaders@[li as int], (&self.metadata@[mi as int],)));
        }
        let asset = (self.loaders[li])(&self.metadata[mi]);
        let id = self.metadata[mi].identifier.clone();
        proof {
            if old(self).assets().contains_key((kind, identifier@)) {
                let t = choose|t: int| 0 <= t < old(self).asset_keys().len() && old(self).asset_keys()[t] == (kind, identifier@);
                assert(old(self).asset_keys().to_set().contains((kind, identifier@)));
                assert(old(self).storage_kinds@.contains(old(self).asset_kinds@[t]));
            }
        }
        self.put_asset(kind, id, asset);
        proof {
            assert(self.assets().dom() =~= old(self).assets().dom().insert((kind, identifier@)));
        }
        Ok(())
    }

    /// Stores `asset` under its metadata's identifier and records the metadata.
    pub fn insert_asset(&mut self, kind: u64, asset_metadata: AssetMetadata, asset: A) -> (r: Result<(), CoreError>)
        requires
            old(self).wf(),
        ensures
            r is Ok,
            final(self).wf(),
            final(self).storages() == old(self).storages().insert(kind),
            final(self).assets() == old(self).assets().insert((kind, asset_metadata.identifier@), asset),
            final(self).metadata_map() == old(self).metadata_map().insert(asset_metadata.identifier@, asset_metadata),
            final(self).loaders_map() == old(self).loaders_map(),
    {
        self.open_storage(kind);
        let id = asset_metadata.identifier.clone();
        self.put_asset(kind, id, asset);
        self.add_asset_metadata(asset_metadata);
        Ok(())
    }

    /// The asset of kind `kind` named `identifier`.
    pub fn stored_asset(&self, kind: u64, identifier: &str) -> (r: Result<&A, CoreError>)
        requires
            self.wf(),
        ensures
            match r {
                Ok(a) => self.holds(kind, identifier@) && *a == self.assets()[(kind, identifier@)],
                Err(e) => !self.holds(kind, identifier@) && (e == (if self.storages().contains(kind) {
                    CoreError::AssetNotFound
                } else {
                    CoreError::AssetStorageNotFound
                })),
            },
    {
        if !self.find_storage(kind) {
            return Err(CoreError::AssetStorageNotFound);
        }
        match self.find_asset(kind, identifier) {
            Some(i) => {
                proof { lemma_assoc_at(self.asset_keys(), self.asset_values@, self.assets_model@, i as int); }
                Ok(&self.asset_values[i])
            },
            None => {
                proof { lemma_assoc_absent(self.asset_keys(), self.asset_values@, self.assets_model@, (kind, identifier@)); }
                Err(CoreError::AssetNotFound)
            },
        }
    }

    /// The asset of kind `kind` named `identifier`, loaded first if it is
    /// not held.
    pub fn asset(&mut self, kind: u64, identifier: &str) -> (r: Result<&A, CoreError>)
        requires
            old(self).wf(),
        ensures
            final(self).wf(),
            old(self).holds(kind, identifier@) ==> r is Ok && *final(self) == *old(self),
            !old(self).holds(kind, identifier@) && !old(self).metadata_map().contains_key(identifier@) ==> r
                == Err::<&A, CoreError>(CoreError::AssetMetadataNotFound),
            !old(self).holds(kind, identifier@) && old(self).metadata_map().contains_key(identifier@)
                && !old(self).loaders_map().contains_key(kind) ==> r == Err::<&A, CoreError>(CoreError::AssetLoaderNotFound),
            !old(self).holds(kind, identifier@) && old(self).metadata_map().contains_key(identifier@)
                && old(self).loaders_map().contains_key(kind) ==> r is Ok,
            r matches Ok(a) ==> final(self).holds(kind, identifier@) && *a == final(self).assets()[(kind, identifier@)]
                && (!old(self).holds(kind, identifier@) ==> call_ensures(
                    old(self).loaders_map()[kind],
                    (&old(self).metadata_map()[identifier@],),
                    *a,
                )),
    {
        if !self.has_asset(kind, identifier) {
            self.load(kind, identifier)?;
        }
        self.stored_asset(kind, identifier)
    }
}

/// An asset stored with `insert_asset` is then held, and reading it gives
/// back the value stored.
pub proof fn law_inserted_asset_is_stored<A, L: Fn(&AssetMetadata) -> A>(
    a: AssetStore<A, L>,
    b: AssetStore<A, L>,
    kind: u64,
    identifier: Seq<char>,
    asset: A,
)
    requires
        b.storages() == a.storages().insert(kind),
        b.assets() == a.assets().insert((kind, identifier), asset),
    ensures
        b.holds(kind, identifier),
        b.assets()[(kind, identifier)] == asset,
{
}

/// Once `load` has succeeded for an asset, the asset is held: loading it
/// again, or reading it with `asset`, calls no loader and changes nothing.
pub proof fn law_loaded_asset_is_held<A, L: Fn(&AssetMetadata) -> A>(
    a: AssetStore<A, L>,
    b: AssetStore<A, L>,
    kind: u64,
    identifier: Seq<char>,
)
    requires
        b.storages() == a.storages().insert(kind),
        b.assets().dom() == a.assets().dom().insert((kind, identifier)),
    ensures
        b.holds(kind, identifier),
{
    assert(b.assets().dom().contains((kind, identifier)));
}

} // verus!

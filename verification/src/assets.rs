//! The selection: the asset records picked so far, each under its key.

use vstd::prelude::*;
use crate::asset::{AssetRecord, AssetRecordView};
use crate::ident::{parse_uuid, uuid_value};

verus! {

/// Keys and records side by side: the record at a place belongs to the key at
/// that place.
struct Table {
    keys: Vec<String>,
    assets: Vec<AssetRecord>,
}

/// A selection of asset records, each stored under the identifier it had when
/// it was added, and the path of the file that keeps the selection.
pub struct Assets {
    file: String,
    table: Table,
}

/// The map that holds, of the pairs in `entries`, the last one for each key.
pub open spec fn map_of_entries(entries: Seq<(Seq<char>, AssetRecordView)>) -> Map<
    Seq<char>,
    AssetRecordView,
>
    decreases entries.len(),
{
    if entries.len() == 0 {
        Map::empty()
    } else {
        map_of_entries(entries.drop_last()).insert(entries.last().0, entries.last().1)
    }
}

/// The pairs of key and record in `entries`, as plain values.
pub open spec fn entry_views(entries: Seq<(String, AssetRecord)>) -> Seq<
    (Seq<char>, AssetRecordView),
> {
    Seq::new(entries.len(), |i: int| (entries[i].0@, entries[i].1@))
}

/// The identifiers among `keys` that are UUIDs, in order.
pub open spec fn uuids_of(keys: Seq<Seq<char>>) -> Seq<u128>
    decreases keys.len(),
{
    if keys.len() == 0 {
        Seq::empty()
    } else {
        match uuid_value(keys.last()) {
            Some(id) => uuids_of(keys.drop_last()).push(id),
            None => uuids_of(keys.drop_last()),
        }
    }
}

/// The items of `items` whose flag in `flags` is set, in order.
spec fn select<T>(items: Seq<T>, flags: Seq<bool>) -> Seq<T>
    decreases items.len(),
{
    if items.len() == 0 || flags.len() == 0 {
        Seq::empty()
    } else if flags.last() {
        select(items.drop_last(), flags.drop_last()).push(items.last())
    } else {
        select(items.drop_last(), flags.drop_last())
    }
}

/// The places at which `flags` is set, in order.
spec fn set_places(flags: Seq<bool>) -> Seq<int>
    decreases flags.len(),
{
    if flags.len() == 0 {
        Seq::empty()
    } else if flags.last() {
        set_places(flags.drop_last()).push(flags.len() - 1)
    } else {
        set_places(flags.drop_last())
    }
}

/// The places at which `flags` is set are exactly those, each once, in
/// rising order.
proof fn lemma_set_places(flags: Seq<bool>)
    ensures
        forall|p: int|
            0 <= p < set_places(flags).len() ==> 0 <= #[trigger] set_places(flags)[p] < flags.len()
                && flags[set_places(flags)[p]],
        forall|p: int, r: int|
            0 <= p < r < set_places(flags).len() ==> set_places(flags)[p] < set_places(flags)[r],
        forall|q: int|
            0 <= q < flags.len() && #[trigger] flags[q] ==> set_places(flags).contains(q),
    decreases flags.len(),
{
    if flags.len() > 0 {
        let front = flags.drop_last();
        lemma_set_places(front);
        let places = set_places(flags);
        let before = set_places(front);
        assert forall|q: int| 0 <= q < flags.len() && #[trigger] flags[q] implies places.contains(
            q,
        ) by {
            if q < front.len() {
                assert(front[q]);
                let p = before.index_of(q);
                assert(before[p] == q);
                assert(places[p] == q);
            } else {
                assert(places[places.len() - 1] == q);
            }
        }
    }
}

/// What is selected stands at the places at which the flags are set.
proof fn lemma_select<T>(items: Seq<T>, flags: Seq<bool>)
    requires
        items.len() == flags.len(),
    ensures
        select(items, flags).len() == set_places(flags).len(),
        forall|p: int|
            0 <= p < set_places(flags).len() ==> #[trigger] select(items, flags)[p]
                == items[set_places(flags)[p]],
    decreases items.len(),
{
    if items.len() > 0 {
        lemma_select(items.drop_last(), flags.drop_last());
        lemma_set_places(flags.drop_last());
    }
}

/// To select by flags that say whether an item passes a test is to filter
/// by that test.
proof fn lemma_select_is_filter<T>(items: Seq<T>, flags: Seq<bool>, test: spec_fn(T) -> bool)
    requires
        items.len() == flags.len(),
        forall|i: int| 0 <= i < items.len() ==> flags[i] == test(#[trigger] items[i]),
    ensures
        select(items, flags) == items.filter(test),
    decreases items.len(),
{
    reveal(Seq::filter);
    if items.len() > 0 {
        lemma_select_is_filter(items.drop_last(), flags.drop_last(), test);
    }
}

/// The items of `items` whose flag is set.
fn keep_flagged<T>(items: Vec<T>, flags: &Vec<bool>) -> (kept: Vec<T>)
    requires
        items@.len() == flags@.len(),
    ensures
        kept@ == select(items@, flags@),
{
    let ghost all = items@;
    let n = items.len();
    let mut kept: Vec<T> = Vec::new();
    let mut i: usize = 0;
    for item in it: items
        invariant
            it.seq() == all,
            all.len() == flags@.len() == n,
            i == it.index(),
            kept@ == select(all.take(i as int), flags@.take(i as int)),
    {
        proof {
            assert(all.take(i + 1).drop_last() == all.take(i as int));
            assert(flags@.take(i + 1).drop_last() == flags@.take(i as int));
        }
        if flags[i] {
            kept.push(item);
        }
        i += 1;
    }
    assert(all.take(all.len() as int) == all);
    assert(flags@.take(all.len() as int) == flags@);
    kept
}

/// To store a record and then another one under the same key is to store
/// the second alone: one record is stored under the key, and it is the
/// second. In a selection that was empty it is the only one.
pub proof fn lemma_upsert(
    store: Map<Seq<char>, AssetRecordView>,
    first: AssetRecordView,
    second: AssetRecordView,
)
    requires
        first.id == second.id,
        store.dom().finite(),
    ensures
        store.insert(first.id, first).insert(second.id, second) == store.insert(second.id, second),
        store.insert(first.id, first).insert(second.id, second)[second.id] == second,
        store.insert(first.id, first).insert(second.id, second).len() == store.insert(
            first.id,
            first,
        ).len(),
        store.len() == 0 ==> store.insert(first.id, first).insert(second.id, second).len() == 1,
{
    assert(store.insert(first.id, first).insert(second.id, second) =~= store.insert(
        second.id,
        second,
    ));
    assert(store.insert(first.id, first) .dom() =~= store.insert(second.id, second).dom());
    if store.len() == 0 {
        assert(store.dom() =~= Set::<Seq<char>>::empty());
    }
}

impl Table {
    /// The keys as plain values.
    spec fn key_views(&self) -> Seq<Seq<char>> {
        Seq::new(self.keys@.len(), |i: int| self.keys@[i]@)
    }

    /// A table without rows.
    fn new() -> (table: Table)
        ensures
            table.keys@.len() == 0,
            table.assets@.len() == 0,
    {
        Table { keys: Vec::new(), assets: Vec::new() }
    }
}

impl View for Assets {
    type V = Map<Seq<char>, AssetRecordView>;

    /// The records by key.
    closed spec fn view(&self) -> Map<Seq<char>, AssetRecordView> {
        Map::new(
            |k: Seq<char>| self.order().contains(k),
            |k: Seq<char>| self.table.assets@[self.order().index_of(k)]@,
        )
    }
}

impl Assets {
    /// The keys in the order in which they are stored: a key that is added
    /// goes last, one that is replaced keeps its place.
    pub closed spec fn order(&self) -> Seq<Seq<char>> {
        self.table.key_views()
    }

    /// The records in the order of their keys.
    pub closed spec fn records(&self) -> Seq<AssetRecord> {
        self.table.assets@
    }

    /// The path of the file that keeps the selection.
    pub closed spec fn path(&self) -> Seq<char> {
        self.file@
    }

    /// No key is stored twice.
    #[verifier::type_invariant]
    pub closed spec fn wf(&self) -> bool {
        self.table.keys@.len() == self.table.assets@.len() && self.order().no_duplicates()
    }

    /// How the map, the order of the keys and the records belong together.
    pub proof fn lemma_view(&self)
        requires
            self.wf(),
        ensures
            self.order().no_duplicates(),
            self.order().len() == self.records().len(),
            self@.dom() == self.order().to_set(),
            self@.dom().finite(),
            self@.len() == self.order().len(),
            forall|i: int|
                0 <= i < self.order().len() ==> self@[#[trigger] self.order()[i]]
                    == self.records()[i]@,
    {
        self.order().unique_seq_to_set();
        vstd::seq_lib::seq_to_set_is_finite(self.order());
        assert(self@.dom() =~= self.order().to_set());
        assert forall|i: int| 0 <= i < self.order().len() implies self@[#[trigger] self.order()[i]]
            == self.records()[i]@ by {
            let k = self.order()[i];
            assert(self.order().contains(k));
            let j = self.order().index_of(k);
            assert(self.order()[j] == k);
            assert(i == j);
        }
    }

    /// An empty selection kept in `file`.
    pub fn new(file: String) -> (assets: Assets)
        ensures
            assets@ == Map::<Seq<char>, AssetRecordView>::empty(),
            assets.order() == Seq::<Seq<char>>::empty(),
            assets.path() == file@,
            assets.wf(),
    {
        let assets = Assets { file, table: Table::new() };
        assert(assets@ =~= Map::<Seq<char>, AssetRecordView>::empty());
        assert(assets.order() =~= Seq::<Seq<char>>::empty());
        assets
    }

    /// The path of the file that keeps the selection.
    pub fn file(&self) -> (file: &String)
        ensures
            file@ == self.path(),
    {
        &self.file
    }

    /// Where `key` is stored.
    fn position(&self, key: &String) -> (r: Option<usize>)
        ensures
            match r {
                Some(i) => i < self.order().len() && self.order()[i as int] == key@,
                None => !self.order().contains(key@),
            },
    {
        let n = self.table.keys.len();
        let mut i: usize = 0;
        while i < n
            invariant
                i <= n == self.table.keys@.len(),
                forall|j: int| 0 <= j < i ==> self.order()[j] != key@,
            decreases n - i,
        {
            if self.table.keys[i] == *key {
                return Some(i);
            }
            i += 1;
        }
        None
    }

    /// How many records are selected.
    pub fn len(&self) -> (n: usize)
        ensures
            n == self@.len(),
            n == self.order().len(),
    {
        proof {
            use_type_invariant(self);
            self.lemma_view();
        }
        self.table.keys.len()
    }

    /// Whether nothing is selected.
    pub fn is_empty(&self) -> (b: bool)
        ensures
            b == (self@.len() == 0),
            b == (self@ == Map::<Seq<char>, AssetRecordView>::empty()),
    {
        proof {
            use_type_invariant(self);
            self.lemma_view();
            if self.table.keys@.len() == 0 {
                assert(self@ =~= Map::<Seq<char>, AssetRecordView>::empty());
            }
        }
        self.table.keys.len() == 0
    }

    /// Whether a record is stored under `asset_id`.
    pub fn contains(&self, asset_id: &str) -> (b: bool)
        ensures
            b == self@.contains_key(asset_id@),
    {
        let key = asset_id.to_owned();
        self.position(&key).is_some()
    }

    /// Empties the selection.
    pub fn clear(&mut self)
        ensures
            final(self)@ == Map::<Seq<char>, AssetRecordView>::empty(),
            final(self).order() == Seq::<Seq<char>>::empty(),
            final(self).path() == old(self).path(),
    {
        let mut table = Table::new();
        core::mem::swap(&mut self.table, &mut table);
        assert(self@ =~= Map::<Seq<char>, AssetRecordView>::empty());
        assert(self.order() =~= Seq::<Seq<char>>::empty());
    }

    /// Stores `asset` under its identifier, in place of the record that was
    /// stored under it before, if there was one.
    pub fn add_asset(&mut self, asset: AssetRecord)
        ensures
            final(self)@ == old(self)@.insert(asset.id@, asset@),
            final(self).order() == if old(self)@.contains_key(asset.id@) {
                old(self).order()
            } else {
                old(self).order().push(asset.id@)
            },
            final(self).path() == old(self).path(),
    {
        let key = asset.id.clone();
        self.put(key, asset);
    }

    /// Stores `asset` under `key`, in place of the record that was stored
    /// under it before, if there was one.
    fn put(&mut self, key: String, asset: AssetRecord)
        ensures
            final(self)@ == old(self)@.insert(key@, asset@),
            final(self).order() == if old(self)@.contains_key(key@) {
                old(self).order()
            } else {
                old(self).order().push(key@)
            },
            final(self).path() == old(self).path(),
    {
        proof {
            use_type_invariant(&*self);
        }
        let ghost id = key@;
        let found = self.position(&key);
        let mut table = Table::new();
        core::mem::swap(&mut self.table, &mut table);
        match found {
            Some(i) => {
                table.assets.set(i, asset);
            },
            None => {
                table.keys.push(key);
                table.assets.push(asset);
            },
        }
        proof {
            assert(table.key_views() =~= if found is Some {
                old(self).order()
            } else {
                old(self).order().push(id)
            });
        }
        core::mem::swap(&mut self.table, &mut table);
        proof {
            let before = old(self).order();
            let after = self.order();
            assert forall|k: Seq<char>| #[trigger]
                self@.contains_key(k) == old(self)@.insert(id, asset@).contains_key(k) by {
                if after.contains(k) {
                    let j = after.index_of(k);
                    if j < before.len() {
                        assert(before[j] == k);
                    }
                }
                if before.contains(k) {
                    let j = before.index_of(k);
                    assert(after[j] == k);
                }
                if k == id {
                    if before.contains(k) {
                    } else {
                        assert(after[before.len() as int] == k);
                    }
                }
            }
            assert forall|k: Seq<char>| #[trigger] self@.contains_key(k) implies self@[k] == old(
                self,
            )@.insert(id, asset@)[k] by {
                let j = after.index_of(k);
                assert(after[j] == k);
                if k != id {
                    assert(before[j] == k);
                    let j0 = before.index_of(k);
                    assert(before[j0] == k);
                    assert(j0 == j);
                }
            }
            assert(self@ =~= old(self)@.insert(id, asset@));
        }
    }

    /// Removes the record stored under `asset_id`, if there is one.
    pub fn remove_asset(&mut self, asset_id: &str)
        ensures
            final(self)@ == old(self)@.remove(asset_id@),
            final(self).order() == if old(self)@.contains_key(asset_id@) {
                old(self).order().remove(old(self).order().index_of(asset_id@))
            } else {
                old(self).order()
            },
            final(self).path() == old(self).path(),
    {
        proof {
            use_type_invariant(&*self);
            old(self).lemma_view();
        }
        let key = asset_id.to_owned();
        match self.position(&key) {
            Some(i) => {
                let mut table = Table::new();
                core::mem::swap(&mut self.table, &mut table);
                table.keys.remove(i);
                table.assets.remove(i);
                proof {
                    let before = old(self).order();
                    assert(before[i as int] == asset_id@);
                    assert(before.index_of(asset_id@) == i);
                    let after = before.remove(i as int);
                    assert(table.key_views() =~= after);
                    assert(after.no_duplicates()) by {
                        assert forall|x: int, y: int|
                            0 <= x < after.len() && 0 <= y < after.len() && x != y implies after[x]
                            != after[y] by {
                            let x0 = if x < i { x } else { x + 1 };
                            let y0 = if y < i { y } else { y + 1 };
                            assert(after[x] == before[x0]);
                            assert(after[y] == before[y0]);
                        }
                    }
                }
                core::mem::swap(&mut self.table, &mut table);
                proof {
                    let before = old(self).order();
                    let after = self.order();
                    assert forall|k: Seq<char>| #[trigger]
                        self@.contains_key(k) == old(self)@.remove(asset_id@).contains_key(k) by {
                        if after.contains(k) {
                            let x = after.index_of(k);
                            let x0 = if x < i { x } else { x + 1 };
                            assert(after[x] == k);
                            assert(before[x0] == k);
                        }
                        if before.contains(k) && k != asset_id@ {
                            let x0 = before.index_of(k);
                            assert(before[x0] == k);
                            let x = if x0 < i { x0 } else { x0 - 1 };
                            assert(after[x] == k);
                        }
                    }
                    assert forall|k: Seq<char>| #[trigger] self@.contains_key(k) implies self@[k]
                        == old(self)@[k] by {
                        let x = after.index_of(k);
                        assert(after[x] == k);
                        let x0 = if x < i { x } else { x + 1 };
                        assert(before[x0] == k);
                        let y0 = before.index_of(k);
                        assert(before[y0] == k);
                        assert(x0 == y0);
                    }
                    assert(self@ =~= old(self)@.remove(asset_id@));
                }
            },
            None => {
                assert(self@ =~= old(self)@.remove(asset_id@));
            },
        }
    }

    /// Keeps the records of which `keep` says so and removes the others.
    pub fn retain<F: Fn(&AssetRecord) -> bool>(&mut self, keep: F)
        requires
            forall|a: &AssetRecord| call_requires(keep, (a,)),
        ensures
            forall|i: int|
                0 <= i < old(self).order().len() ==> call_ensures(
                    keep,
                    (&old(self).records()[i],),
                    final(self)@.contains_key(#[trigger] old(self).order()[i]),
                ),
            final(self)@.submap_of(old(self)@),
            final(self).order() == old(self).order().filter(
                |k: Seq<char>| final(self)@.contains_key(k),
            ),
            forall|p: int|
                0 <= p < final(self).order().len() ==> final(self).records()[p] == old(
                    self,
                ).records()[old(self).order().index_of(#[trigger] final(self).order()[p])],
            final(self).path() == old(self).path(),
    {
        proof {
            use_type_invariant(&*self);
            old(self).lemma_view();
        }
        let n = self.table.assets.len();
        let mut flags: Vec<bool> = Vec::new();
        let mut i: usize = 0;
        while i < n
            invariant
                i <= n == self.table.assets@.len(),
                flags@.len() == i,
                forall|a: &AssetRecord| call_requires(keep, (a,)),
                forall|j: int|
                    0 <= j < i ==> call_ensures(
                        keep,
                        (&self.table.assets@[j],),
                        #[trigger] flags@[j],
                    ),
            decreases n - i,
        {
            let flag = keep(&self.table.assets[i]);
            flags.push(flag);
            i += 1;
        }
        let mut table = Table::new();
        core::mem::swap(&mut self.table, &mut table);
        let Table { keys, assets } = table;
        let ghost old_keys = keys@;
        let kept_keys = keep_flagged(keys, &flags);
        let kept_assets = keep_flagged(assets, &flags);
        let mut table = Table { keys: kept_keys, assets: kept_assets };
        let ghost before = old(self).order();
        let ghost places = set_places(flags@);
        proof {
            lemma_set_places(flags@);
            lemma_select(old_keys, flags@);
            lemma_select(old(self).records(), flags@);
            assert(table.key_views().len() == places.len());
            assert forall|p: int| 0 <= p < places.len() implies #[trigger] table.key_views()[p]
                == before[places[p]] by {
                assert(table.keys@[p] == old_keys[places[p]]);
            }
            assert(table.key_views().no_duplicates()) by {
                assert forall|x: int, y: int|
                    0 <= x < places.len() && 0 <= y < places.len() && x != y implies
                    table.key_views()[x] != table.key_views()[y] by {
                    assert(table.key_views()[x] == before[places[x]]);
                    assert(table.key_views()[y] == before[places[y]]);
                    if x < y {
                        assert(places[x] < places[y]);
                    } else {
                        assert(places[y] < places[x]);
                    }
                }
            }
        }
        core::mem::swap(&mut self.table, &mut table);
        proof {
            let after = self.order();
            assert forall|i: int| 0 <= i < before.len() implies self@.contains_key(
                #[trigger] before[i],
            ) == flags@[i] by {
                if flags@[i] {
                    assert(places.contains(i));
                    let p = places.index_of(i);
                    assert(places[p] == i);
                    assert(after[p] == before[i]);
                }
                if after.contains(before[i]) {
                    let p = after.index_of(before[i]);
                    assert(after[p] == before[i]);
                    assert(after[p] == before[places[p]]);
                    assert(places[p] == i);
                }
            }
            assert forall|k: Seq<char>| #[trigger] self@.contains_key(k) implies old(
                self,
            )@.contains_key(k) && self@[k] == old(self)@[k] by {
                let p = after.index_of(k);
                assert(after[p] == k);
                assert(before[places[p]] == k);
                let q = before.index_of(k);
                assert(before[q] == k);
                assert(q == places[p]);
                assert(self.records()[p] == old(self).records()[q]);
            }
            let test = |k: Seq<char>| self@.contains_key(k);
            lemma_select(before, flags@);
            assert(after =~= select(before, flags@));
            lemma_select_is_filter(before, flags@, test);
            assert forall|p: int| 0 <= p < after.len() implies self.records()[p] == old(
                self,
            ).records()[before.index_of(#[trigger] after[p])] by {
                let q = before.index_of(after[p]);
                assert(before[places[p]] == after[p]);
                assert(before[q] == after[p]);
                assert(q == places[p]);
            }
        }
    }

    /// The records, in the order of their keys.
    pub fn iter_assets(&self) -> (assets: &[AssetRecord])
        ensures
            assets@ == self.records(),
    {
        self.table.assets.as_slice()
    }

    /// The keys, in their order.
    pub fn keys(&self) -> (keys: &[String])
        ensures
            keys@.len() == self.order().len(),
            forall|i: int| 0 <= i < keys@.len() ==> (#[trigger] keys@[i])@ == self.order()[i],
    {
        self.table.keys.as_slice()
    }

    /// One step of a walk over the records that may change them: the record
    /// at place `index`, to read or to replace. Its key stays as it is.
    pub fn iter_mut_assets(&mut self, index: usize) -> (asset: &mut AssetRecord)
        requires
            index < old(self).order().len(),
        ensures
            *asset == old(self).records()[index as int],
            final(self).records() == old(self).records().update(index as int, *final(asset)),
            final(self).order() == old(self).order(),
            final(self).path() == old(self).path(),
    {
        proof {
            use_type_invariant(&*self);
        }
        &mut self.table.assets[index]
    }

    /// The keys that are UUIDs, as numbers, in the order of the keys.
    pub fn asset_uuids(&self) -> (ids: Vec<u128>)
        ensures
            ids@ == uuids_of(self.order()),
    {
        let n = self.table.keys.len();
        let mut ids: Vec<u128> = Vec::new();
        let mut i: usize = 0;
        while i < n
            invariant
                i <= n == self.table.keys@.len(),
                ids@ == uuids_of(self.order().take(i as int)),
            decreases n - i,
        {
            proof {
                assert(self.order().take(i + 1).drop_last() == self.order().take(i as int));
            }
            match parse_uuid(self.table.keys[i].as_str()) {
                Some(id) => ids.push(id),
                None => {},
            }
            i += 1;
        }
        assert(self.order().take(n as int) == self.order());
        ids
    }

    /// The selection kept in `file`: the pairs in `stored`, which is what the
    /// file held, where a later pair replaces an earlier one with the same key;
    /// empty where the file held nothing that could be read.
    pub fn load(file: &str, stored: Option<Vec<(String, AssetRecord)>>) -> (assets: Assets)
        ensures
            assets.path() == file@,
            assets@ == match stored {
                Some(entries) => map_of_entries(entry_views(entries@)),
                None => Map::empty(),
            },
            assets.wf(),
    {
        let mut assets = Assets::new(file.to_owned());
        match stored {
            None => {},
            Some(entries) => {
                let ghost all = entries@;
                for pair in it: entries
                    invariant
                        it.seq() == all,
                        assets.path() == file@,
                        assets@ == map_of_entries(entry_views(all.take(it.index() as int))),
                {
                    proof {
                        assert(entry_views(all.take(it.index() + 1)).drop_last() == entry_views(
                            all.take(it.index() as int),
                        ));
                    }
                    let (key, asset) = pair;
                    assets.put(key, asset);
                }
                assert(all.take(all.len() as int) == all);
            },
        }
        proof {
            use_type_invariant(&assets);
        }
        assets
    }
}

} // verus!

//! The key/value store holding current metric values.
//!
//! A stored value is addressed by a ping store name and a metric
//! identifier. The contents are modelled as a sequence of
//! `(store name, identifier, value)` triples; [`lookup`] reads the first
//! triple with a given key, and [`record_in_store`] replaces it in place
//! (or appends a fresh one), so recording is last-write-wins per key.

use vstd::prelude::*;

use crate::common_metric_data::CommonMetricData;
use crate::datetime::Datetime;
use crate::time_unit::TimeUnit;

verus! {

/// A recorded metric value, tagged by metric kind. A reader expecting
/// one kind treats any other as absent.
#[derive(Clone, Copy, Debug, PartialEq, Eq, Structural)]
pub enum Metric {
    /// A plain flag.
    Boolean(bool),
    /// A monotonically accumulated count.
    Counter(i32),
    /// A timezone-aware timestamp together with the precision it was
    /// recorded under.
    Datetime(Datetime, TimeUnit),
}

/// One persisted entry: which ping store it lives in, the metric
/// identifier, and the value.
#[derive(Clone, Debug)]
pub struct StoredEntry {
    /// Name of the ping store holding this entry.
    pub store: String,
    /// Identifier of the metric the value belongs to.
    pub id: String,
    /// The recorded value.
    pub value: Metric,
}

/// The store of current metric values.
#[derive(Debug)]
pub struct Storage {
    /// The persisted entries, in insertion order, at most one per
    /// `(store, id)` key.
    pub entries: Vec<StoredEntry>,
}

impl View for Storage {
    type V = Seq<(Seq<char>, Seq<char>, Metric)>;

    open spec fn view(&self) -> Self::V {
        self.entries@.map_values(|e: StoredEntry| (e.store@, e.id@, e.value))
    }
}

/// The ping store names of a metric, as character sequences.
pub open spec fn ping_names(pings: Seq<String>) -> Seq<Seq<char>> {
    pings.map_values(|p: String| p@)
}

/// The value stored under `(store, id)`, reading the first matching
/// triple; absent when no triple matches.
pub open spec fn lookup(
    contents: Seq<(Seq<char>, Seq<char>, Metric)>,
    store: Seq<char>,
    id: Seq<char>,
) -> Option<Metric>
    decreases contents.len(),
{
    if contents.len() == 0 {
        None
    } else if contents[0].0 == store && contents[0].1 == id {
        Some(contents[0].2)
    } else {
        lookup(contents.skip(1), store, id)
    }
}

/// The contents after writing `value` under `(store, id)`: the first
/// matching triple is replaced in place, or a fresh triple is appended.
pub open spec fn record_in_store(
    contents: Seq<(Seq<char>, Seq<char>, Metric)>,
    store: Seq<char>,
    id: Seq<char>,
    value: Metric,
) -> Seq<(Seq<char>, Seq<char>, Metric)>
    decreases contents.len(),
{
    if contents.len() == 0 {
        seq![(store, id, value)]
    } else if contents[0].0 == store && contents[0].1 == id {
        seq![(store, id, value)] + contents.skip(1)
    } else {
        seq![contents[0]] + record_in_store(contents.skip(1), store, id, value)
    }
}

/// The contents after writing `value` under `id` into every ping store
/// named in `pings`, in order.
pub open spec fn record_in_pings(
    contents: Seq<(Seq<char>, Seq<char>, Metric)>,
    pings: Seq<Seq<char>>,
    id: Seq<char>,
    value: Metric,
) -> Seq<(Seq<char>, Seq<char>, Metric)>
    decreases pings.len(),
{
    if pings.len() == 0 {
        contents
    } else {
        record_in_pings(record_in_store(contents, pings[0], id, value), pings.skip(1), id, value)
    }
}

/// When the first match for `(store, id)` sits at position `i`, writing
/// replaces exactly that position.
proof fn lemma_record_in_store_update(
    contents: Seq<(Seq<char>, Seq<char>, Metric)>,
    store: Seq<char>,
    id: Seq<char>,
    value: Metric,
    i: int,
)
    requires
        0 <= i < contents.len(),
        contents[i].0 == store && contents[i].1 == id,
        forall|j: int| 0 <= j < i ==> !(contents[j].0 == store && contents[j].1 == id),
    ensures
        record_in_store(contents, store, id, value) == contents.update(i, (store, id, value)),
    decreases i,
{
    if i == 0 {
        assert(record_in_store(contents, store, id, value) =~= contents.update(
            0,
            (store, id, value),
        ));
    } else {
        assert(!(contents[0].0 == store && contents[0].1 == id));
        lemma_record_in_store_update(contents.skip(1), store, id, value, i - 1);
        assert(seq![contents[0]] + contents.skip(1).update(i - 1, (store, id, value))
            =~= contents.update(i, (store, id, value)));
    }
}

/// When no triple matches `(store, id)`, writing appends a fresh one.
proof fn lemma_record_in_store_fresh(
    contents: Seq<(Seq<char>, Seq<char>, Metric)>,
    store: Seq<char>,
    id: Seq<char>,
    value: Metric,
)
    requires
        forall|j: int|
            0 <= j < contents.len() ==> !(contents[j].0 == store && contents[j].1 == id),
    ensures
        record_in_store(contents, store, id, value) == contents.push((store, id, value)),
    decreases contents.len(),
{
    if contents.len() == 0 {
        assert(record_in_store(contents, store, id, value) =~= contents.push((store, id, value)));
    } else {
        lemma_record_in_store_fresh(contents.skip(1), store, id, value);
        assert(seq![contents[0]] + contents.skip(1).push((store, id, value)) =~= contents.push(
            (store, id, value),
        ));
    }
}

/// Writing into one more ping store is one more in-store write after the
/// previous ones.
pub proof fn lemma_record_in_pings_push(
    contents: Seq<(Seq<char>, Seq<char>, Metric)>,
    pings: Seq<Seq<char>>,
    next: Seq<char>,
    id: Seq<char>,
    value: Metric,
)
    ensures
        record_in_pings(contents, pings.push(next), id, value) == record_in_store(
            record_in_pings(contents, pings, id, value),
            next,
            id,
            value,
        ),
    decreases pings.len(),
{
    let extended = pings.push(next);
    assert(extended.len() == pings.len() + 1);
    if pings.len() == 0 {
        assert(extended[0] == next);
        assert(extended.skip(1) =~= Seq::<Seq<char>>::empty());
        assert(record_in_pings(contents, extended, id, value) == record_in_pings(
            record_in_store(contents, next, id, value),
            extended.skip(1),
            id,
            value,
        ));
        assert(record_in_pings(contents, pings, id, value) == contents);
    } else {
        assert(extended[0] == pings[0]);
        assert(extended.skip(1) =~= pings.skip(1).push(next));
        let after_first = record_in_store(contents, pings[0], id, value);
        assert(record_in_pings(contents, extended, id, value) == record_in_pings(
            after_first,
            extended.skip(1),
            id,
            value,
        ));
        lemma_record_in_pings_push(after_first, pings.skip(1), next, id, value);
        assert(record_in_pings(contents, pings, id, value) == record_in_pings(
            after_first,
            pings.skip(1),
            id,
            value,
        ));
    }
}

/// After a write under `(store, id)`, reading that key gives the value
/// just written.
pub proof fn lemma_lookup_record_in_store_same(
    contents: Seq<(Seq<char>, Seq<char>, Metric)>,
    store: Seq<char>,
    id: Seq<char>,
    value: Metric,
)
    ensures
        lookup(record_in_store(contents, store, id, value), store, id) == Some(value),
    decreases contents.len(),
{
    if contents.len() == 0 {
    } else if contents[0].0 == store && contents[0].1 == id {
    } else {
        lemma_lookup_record_in_store_same(contents.skip(1), store, id, value);
        assert((seq![contents[0]] + record_in_store(contents.skip(1), store, id, value)).skip(1)
            =~= record_in_store(contents.skip(1), store, id, value));
    }
}

/// A write under one key leaves every other key unchanged.
pub proof fn lemma_lookup_record_in_store_other(
    contents: Seq<(Seq<char>, Seq<char>, Metric)>,
    store: Seq<char>,
    id: Seq<char>,
    value: Metric,
    store2: Seq<char>,
    id2: Seq<char>,
)
    requires
        !(store2 == store && id2 == id),
    ensures
        lookup(record_in_store(contents, store, id, value), store2, id2) == lookup(
            contents,
            store2,
            id2,
        ),
    decreases contents.len(),
{
    let written = record_in_store(contents, store, id, value);
    if contents.len() == 0 {
        assert(written == seq![(store, id, value)]);
        assert(written[0] == (store, id, value));
        assert(written.skip(1) =~= Seq::<(Seq<char>, Seq<char>, Metric)>::empty());
        assert(lookup(written, store2, id2) == lookup(written.skip(1), store2, id2));
    } else if contents[0].0 == store && contents[0].1 == id {
        assert(written == seq![(store, id, value)] + contents.skip(1));
        assert(written[0] == (store, id, value));
        assert(written.skip(1) =~= contents.skip(1));
        assert(lookup(written, store2, id2) == lookup(contents.skip(1), store2, id2));
        assert(lookup(contents, store2, id2) == lookup(contents.skip(1), store2, id2));
    } else {
        let rest = record_in_store(contents.skip(1), store, id, value);
        assert(written == seq![contents[0]] + rest);
        assert(written[0] == contents[0]);
        assert(written.skip(1) =~= rest);
        lemma_lookup_record_in_store_other(contents.skip(1), store, id, value, store2, id2);
        if contents[0].0 == store2 && contents[0].1 == id2 {
            assert(lookup(written, store2, id2) == Some(contents[0].2));
        } else {
            assert(lookup(written, store2, id2) == lookup(rest, store2, id2));
        }
    }
}

/// A key whose store is not among the pings written, or whose identifier
/// differs, reads the same before and after.
pub proof fn lemma_lookup_record_in_pings_other(
    contents: Seq<(Seq<char>, Seq<char>, Metric)>,
    pings: Seq<Seq<char>>,
    id: Seq<char>,
    value: Metric,
    store2: Seq<char>,
    id2: Seq<char>,
)
    requires
        !(pings.contains(store2) && id2 == id),
    ensures
        lookup(record_in_pings(contents, pings, id, value), store2, id2) == lookup(
            contents,
            store2,
            id2,
        ),
    decreases pings.len(),
{
    if pings.len() == 0 {
    } else {
        assert(pings.contains(pings[0]));
        if pings.skip(1).contains(store2) {
            let k = choose|k: int| 0 <= k < pings.skip(1).len() && pings.skip(1)[k] == store2;
            assert(pings[k + 1] == store2);
            assert(pings.contains(store2));
        }
        lemma_lookup_record_in_store_other(contents, pings[0], id, value, store2, id2);
        lemma_lookup_record_in_pings_other(
            record_in_store(contents, pings[0], id, value),
            pings.skip(1),
            id,
            value,
            store2,
            id2,
        );
    }
}

/// After writing under `id` into every store in `pings`, each of those
/// stores reads the value just written.
pub proof fn lemma_lookup_record_in_pings_recorded(
    contents: Seq<(Seq<char>, Seq<char>, Metric)>,
    pings: Seq<Seq<char>>,
    id: Seq<char>,
    value: Metric,
    store: Seq<char>,
)
    requires
        pings.contains(store),
    ensures
        lookup(record_in_pings(contents, pings, id, value), store, id) == Some(value),
    decreases pings.len(),
{
    let after_first = record_in_store(contents, pings[0], id, value);
    if pings.skip(1).contains(store) {
        lemma_lookup_record_in_pings_recorded(after_first, pings.skip(1), id, value, store);
    } else {
        let k = choose|k: int| 0 <= k < pings.len() && pings[k] == store;
        assert(k == 0) by {
            if k > 0 {
                assert(pings.skip(1)[k - 1] == store);
            }
        }
        lemma_lookup_record_in_store_same(contents, store, id, value);
        lemma_lookup_record_in_pings_other(after_first, pings.skip(1), id, value, store, id);
    }
}

/// Writing a value that the key already holds leaves the contents
/// exactly as they were.
pub proof fn lemma_record_in_store_noop(
    contents: Seq<(Seq<char>, Seq<char>, Metric)>,
    store: Seq<char>,
    id: Seq<char>,
    value: Metric,
)
    requires
        lookup(contents, store, id) == Some(value),
    ensures
        record_in_store(contents, store, id, value) == contents,
    decreases contents.len(),
{
    if contents.len() == 0 {
    } else if contents[0].0 == store && contents[0].1 == id {
        assert(contents[0] == (store, id, value));
        assert(seq![contents[0]] + contents.skip(1) =~= contents);
    } else {
        lemma_record_in_store_noop(contents.skip(1), store, id, value);
        assert(seq![contents[0]] + contents.skip(1) =~= contents);
    }
}

/// Writing a value that every named store already holds under `id`
/// leaves the contents exactly as they were.
pub proof fn lemma_record_in_pings_noop(
    contents: Seq<(Seq<char>, Seq<char>, Metric)>,
    pings: Seq<Seq<char>>,
    id: Seq<char>,
    value: Metric,
)
    requires
        forall|st: Seq<char>| pings.contains(st) ==> lookup(contents, st, id) == Some(value),
    ensures
        record_in_pings(contents, pings, id, value) == contents,
    decreases pings.len(),
{
    if pings.len() == 0 {
    } else {
        assert(pings.contains(pings[0]));
        lemma_record_in_store_noop(contents, pings[0], id, value);
        assert forall|st: Seq<char>| pings.skip(1).contains(st) implies lookup(contents, st, id)
            == Some(value) by {
            let k = choose|k: int| 0 <= k < pings.skip(1).len() && pings.skip(1)[k] == st;
            assert(pings[k + 1] == st);
            assert(pings.contains(st));
        }
        lemma_record_in_pings_noop(contents, pings.skip(1), id, value);
    }
}

/// Index of the first entry with the given key, if any; otherwise a
/// guarantee that no entry has it.
fn find_index(entries: &Vec<StoredEntry>, store: &String, id: &String) -> (r: Option<usize>)
    ensures
        match r {
            Some(i) => {
                &&& i < entries@.len()
                &&& entries@[i as int].store@ == store@
                &&& entries@[i as int].id@ == id@
                &&& forall|j: int|
                    0 <= j < i ==> !(entries@[j].store@ == store@ && entries@[j].id@ == id@)
            },
            None => forall|j: int|
                0 <= j < entries@.len() ==> !(entries@[j].store@ == store@ && entries@[j].id@
                    == id@),
        },
{
    let mut i: usize = 0;
    while i < entries.len()
        invariant
            i <= entries@.len(),
            forall|j: int| 0 <= j < i ==> !(entries@[j].store@ == store@ && entries@[j].id@ == id@),
        decreases entries@.len() - i,
    {
        if entries[i].store == *store && entries[i].id == *id {
            return Some(i);
        }
        i += 1;
    }
    None
}

impl Storage {
    /// A store with nothing recorded.
    pub fn new() -> (r: Storage)
        ensures
            r@ == Seq::<(Seq<char>, Seq<char>, Metric)>::empty(),
    {
        let r = Storage { entries: Vec::new() };
        proof {
            assert(r@ =~= Seq::<(Seq<char>, Seq<char>, Metric)>::empty());
        }
        r
    }

    /// Writes `value` under `(store, id)`, replacing the first entry with
    /// that key in place or appending a fresh one.
    fn record_one(&mut self, store: &String, id: &String, value: Metric)
        ensures
            final(self)@ == record_in_store(old(self)@, store@, id@, value),
    {
        let entry = StoredEntry { store: store.clone(), id: id.clone(), value };
        match find_index(&self.entries, store, id) {
            Some(i) => {
                self.entries[i] = entry;
                proof {
                    lemma_record_in_store_update(old(self)@, store@, id@, value, i as int);
                    assert(self@ =~= old(self)@.update(i as int, (store@, id@, value)));
                }
            },
            None => {
                self.entries.push(entry);
                proof {
                    lemma_record_in_store_fresh(old(self)@, store@, id@, value);
                    assert(self@ =~= old(self)@.push((store@, id@, value)));
                }
            },
        }
    }

    /// Writes `value` under the metric's identifier into every ping store
    /// the metric names; a last-write-wins persistence primitive.
    pub fn record(&mut self, meta: &CommonMetricData, value: &Metric)
        ensures
            final(self)@ == record_in_pings(
                old(self)@,
                ping_names(meta.send_in_pings@),
                meta.identifier_spec(),
                *value,
            ),
    {
        let id = meta.identifier();
        let mut i: usize = 0;
        while i < meta.send_in_pings.len()
            invariant
                i <= meta.send_in_pings@.len(),
                id@ == meta.identifier_spec(),
                self@ == record_in_pings(
                    old(self)@,
                    ping_names(meta.send_in_pings@).take(i as int),
                    meta.identifier_spec(),
                    *value,
                ),
            decreases meta.send_in_pings@.len() - i,
        {
            let ghost prefix = ping_names(meta.send_in_pings@).take(i as int);
            self.record_one(&meta.send_in_pings[i], &id, *value);
            proof {
                lemma_record_in_pings_push(
                    old(self)@,
                    prefix,
                    meta.send_in_pings@[i as int]@,
                    meta.identifier_spec(),
                    *value,
                );
                assert(ping_names(meta.send_in_pings@).take(i as int + 1) =~= prefix.push(
                    meta.send_in_pings@[i as int]@,
                ));
            }
            i += 1;
        }
        proof {
            assert(ping_names(meta.send_in_pings@).take(meta.send_in_pings@.len() as int)
                =~= ping_names(meta.send_in_pings@));
        }
    }
}

/// Read access to the store, addressed by ping store name and metric
/// identifier.
pub struct StorageManager;

impl StorageManager {
    /// Non-destructive read of the value stored under
    /// `(storage_name, metric_id)`; absent when nothing is stored there.
    pub fn snapshot_metric(
        &self,
        storage: &Storage,
        storage_name: &str,
        metric_id: &str,
    ) -> (r: Option<Metric>)
        ensures
            r == lookup(storage@, storage_name@, metric_id@),
    {
        let name: String = storage_name.to_owned();
        let id: String = metric_id.to_owned();
        match find_index(&storage.entries, &name, &id) {
            Some(i) => {
                proof {
                    lemma_lookup_found(storage@, storage_name@, metric_id@, i as int);
                }
                Some(storage.entries[i].value)
            },
            None => {
                proof {
                    lemma_lookup_missing(storage@, storage_name@, metric_id@);
                }
                None
            },
        }
    }
}

/// When the first match for `(store, id)` sits at position `i`, the
/// lookup reads exactly that entry.
proof fn lemma_lookup_found(
    contents: Seq<(Seq<char>, Seq<char>, Metric)>,
    store: Seq<char>,
    id: Seq<char>,
    i: int,
)
    requires
        0 <= i < contents.len(),
        contents[i].0 == store && contents[i].1 == id,
        forall|j: int| 0 <= j < i ==> !(contents[j].0 == store && contents[j].1 == id),
    ensures
        lookup(contents, store, id) == Some(contents[i].2),
    decreases i,
{
    if i > 0 {
        lemma_lookup_found(contents.skip(1), store, id, i - 1);
    }
}

/// When no entry matches `(store, id)`, the lookup is absent.
proof fn lemma_lookup_missing(
    contents: Seq<(Seq<char>, Seq<char>, Metric)>,
    store: Seq<char>,
    id: Seq<char>,
)
    requires
        forall|j: int|
            0 <= j < contents.len() ==> !(contents[j].0 == store && contents[j].1 == id),
    ensures
        lookup(contents, store, id) == None::<Metric>,
    decreases contents.len(),
{
    if contents.len() > 0 {
        lemma_lookup_missing(contents.skip(1), store, id);
    }
}

} // verus!

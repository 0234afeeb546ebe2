//! The lookup table: one row per lookup key, and how a fetched hash record
//! is materialized into it.

use vstd::prelude::*;

verus! {

/// The row served for a lookup key: the source key whose record held the
/// field, and the field's value.
#[derive(Clone, Debug, PartialEq, Eq)]
pub struct CacheRow {
    pub key: String,
    pub value: String,
}

/// The mathematical value of a row: (source key, field value).
pub type RowView = (Seq<char>, Seq<char>);

impl View for CacheRow {
    type V = RowView;

    open spec fn view(&self) -> RowView {
        (self.key@, self.value@)
    }
}

/// The rows that one hash record of `source` yields, keyed by field name; a
/// field named twice keeps its later value.
pub open spec fn rows_of(source: Seq<char>, record: Seq<(String, String)>) -> Map<Seq<char>, RowView>
    decreases record.len(),
{
    if record.len() == 0 {
        Map::empty()
    } else {
        let last = record.last();
        rows_of(source, record.drop_last()).insert(last.0@, (source, last.1@))
    }
}

/// The table after materializing `record` of `source` into `table`: every
/// field of the record replaces the row under its name, every other row stays.
pub open spec fn materialized(
    table: Map<Seq<char>, RowView>,
    source: Seq<char>,
    record: Option<Seq<(String, String)>>,
) -> Map<Seq<char>, RowView> {
    match record {
        Some(r) => table.union_prefer_right(rows_of(source, r)),
        None => table,
    }
}

/// A mapping from lookup key (a field name) to the row last written for it.
pub struct CacheStore {
    entries: Vec<(String, CacheRow)>,
    model: Ghost<Map<Seq<char>, RowView>>,
}

impl View for CacheStore {
    type V = Map<Seq<char>, RowView>;

    closed spec fn view(&self) -> Map<Seq<char>, RowView> {
        self.model@
    }
}

impl CacheStore {
    /// Each entry is one key of the model, with its row, and no key is held twice.
    pub closed spec fn wf(&self) -> bool {
        &&& forall|i: int, j: int|
            0 <= i < j < self.entries@.len() ==> #[trigger] self.entries@[i].0@
                != #[trigger] self.entries@[j].0@
        &&& forall|i: int|
            0 <= i < self.entries@.len() ==> #[trigger] self.model@.contains_key(
                self.entries@[i].0@,
            ) && self.model@[self.entries@[i].0@] == self.entries@[i].1@
        &&& forall|k: Seq<char>|
            #[trigger] self.model@.contains_key(k) ==> exists|i: int|
                0 <= i < self.entries@.len() && #[trigger] self.entries@[i].0@ == k
    }

    /// An empty table.
    pub fn new() -> (r: CacheStore)
        ensures
            r.wf(),
            r@ == Map::<Seq<char>, RowView>::empty(),
    {
        CacheStore { entries: Vec::new(), model: Ghost(Map::empty()) }
    }

    /// The number of lookup keys held.
    pub fn len(&self) -> (n: usize)
        requires
            self.wf(),
        ensures
            n == self@.len(),
    {
        proof {
            self.lemma_len();
        }
        self.entries.len()
    }

    proof fn lemma_len(&self)
        requires
            self.wf(),
        ensures
            self@.len() == self.entries@.len(),
    {
        let keys = self.entries@.map_values(|e: (String, CacheRow)| e.0@);
        assert(keys.no_duplicates()) by {
            assert forall|i: int, j: int|
                0 <= i < keys.len() && 0 <= j < keys.len() && i != j implies keys[i] != keys[j] by {
                if i < j {
                    assert(self.entries@[i].0@ != self.entries@[j].0@);
                } else {
                    assert(self.entries@[j].0@ != self.entries@[i].0@);
                }
            }
        }
        assert(self@.dom() =~= keys.to_set()) by {
            assert forall|k: Seq<char>| self@.dom().contains(k) implies keys.to_set().contains(k) by {
                let i = choose|i: int| 0 <= i < self.entries@.len() && #[trigger] self.entries@[i].0@ == k;
                assert(keys[i] == k);
            }
            assert forall|k: Seq<char>| keys.to_set().contains(k) implies self@.dom().contains(k) by {
                let i = choose|i: int| 0 <= i < keys.len() && keys[i] == k;
                assert(self.model@.contains_key(self.entries@[i].0@));
            }
        }
        keys.unique_seq_to_set();
    }

    fn find(&self, key: &String) -> (r: Option<usize>)
        requires
            self.wf(),
        ensures
            r matches Some(i) ==> i < self.entries@.len() && self.entries@[i as int].0@ == key@,
            r is None ==> !self@.contains_key(key@),
    {
        let mut i: usize = 0;
        while i < self.entries.len()
            invariant
                self.wf(),
                i <= self.entries@.len(),
                forall|j: int| 0 <= j < i ==> #[trigger] self.entries@[j].0@ != key@,
            decreases self.entries@.len() - i,
        {
            if self.entries[i].0 == *key {
                return Some(i);
            }
            i = i + 1;
        }
        None
    }

    /// The row for `key`, copied out, if one is held.
    pub fn get(&self, key: &String) -> (r: Option<CacheRow>)
        requires
            self.wf(),
        ensures
            r matches Some(row) ==> self@.contains_key(key@) && row@ == self@[key@],
            r is None ==> !self@.contains_key(key@),
    {
        match self.find(key) {
            Some(i) => {
                let row = &self.entries[i].1;
                assert(self.model@.contains_key(self.entries@[i as int].0@));
                Some(CacheRow { key: row.key.clone(), value: row.value.clone() })
            },
            None => None,
        }
    }

    /// Puts `row` under `key`, replacing any row held there.
    pub fn upsert(&mut self, key: String, row: CacheRow)
        requires
            old(self).wf(),
        ensures
            final(self).wf(),
            final(self)@ == old(self)@.insert(key@, row@),
    {
        let ghost k = key@;
        let ghost v = row@;
        match self.find(&key) {
            Some(i) => {
                self.entries.set(i, (key, row));
                self.model = Ghost(self.model@.insert(k, v));
                assert forall|a: int, b: int|
                    0 <= a < b < self.entries@.len() implies #[trigger] self.entries@[a].0@
                        != #[trigger] self.entries@[b].0@ by {
                    assert(old(self).entries@[a].0@ != old(self).entries@[b].0@);
                }
                assert forall|j: int| 0 <= j < self.entries@.len() implies #[trigger] self.model@.contains_key(
                    self.entries@[j].0@) && self.model@[self.entries@[j].0@] == self.entries@[j].1@ by {
                    if j != i {
                        assert(old(self).entries@[j].0@ != old(self).entries@[i as int].0@);
                        assert(old(self).model@.contains_key(old(self).entries@[j].0@));
                    }
                }
                assert forall|k2: Seq<char>| #[trigger] self.model@.contains_key(k2) implies exists|j: int|
                    0 <= j < self.entries@.len() && #[trigger] self.entries@[j].0@ == k2 by {
                    if k2 == k {
                        assert(self.entries@[i as int].0@ == k2);
                    } else {
                        let j = choose|j: int| 0 <= j < old(self).entries@.len() && #[trigger] old(self).entries@[j].0@ == k2;
                        assert(self.entries@[j].0@ == k2);
                    }
                }
            },
            None => {
                self.entries.push((key, row));
                self.model = Ghost(self.model@.insert(k, v));
                let ghost n = self.entries@.len() - 1;
                assert forall|k2: Seq<char>| #[trigger] self.model@.contains_key(k2) implies exists|j: int|
                    0 <= j < self.entries@.len() && #[trigger] self.entries@[j].0@ == k2 by {
                    if k2 == k {
                        assert(self.entries@[n].0@ == k2);
                    } else {
                        let j = choose|j: int| 0 <= j < old(self).entries@.len() && #[trigger] old(self).entries@[j].0@ == k2;
                        assert(self.entries@[j].0@ == k2);
                    }
                }
                assert forall|a: int, b: int|
                    0 <= a < b < self.entries@.len() implies #[trigger] self.entries@[a].0@
                        != #[trigger] self.entries@[b].0@ by {
                    if b == n {
                        assert(old(self).model@.contains_key(old(self).entries@[a].0@));
                    }
                }
            },
        }
    }

    /// Materializes `record`, the hash record fetched for `source`: each of
    /// its fields becomes the row `(source, value)` under the field's name.
    /// An absent record leaves the table as it is.
    pub fn materialize(&mut self, source: &String, record: Option<Vec<(String, String)>>)
        requires
            old(self).wf(),
        ensures
            final(self).wf(),
            final(self)@ == materialized(old(self)@, source@, record_view(record)),
    {
        if let Some(fields) = record {
            let n = fields.len();
            let mut i: usize = 0;
            assert(fields@.take(0) =~= Seq::<(String, String)>::empty());
            assert(self@ =~= old(self)@.union_prefer_right(rows_of(source@, fields@.take(0))));
            while i < n
                invariant
                    self.wf(),
                    n == fields@.len(),
                    i <= n,
                    self@ == old(self)@.union_prefer_right(rows_of(source@, fields@.take(i as int))),
                decreases n - i,
            {
                let field = &fields[i];
                let ghost before = self@;
                self.upsert(field.0.clone(), CacheRow { key: source.clone(), value: field.1.clone() });
                proof {
                    let t = fields@.take(i as int + 1);
                    assert(t.drop_last() =~= fields@.take(i as int));
                    assert(self@ =~= old(self)@.union_prefer_right(rows_of(source@, t)));
                }
                i = i + 1;
            }
            assert(fields@.take(n as int) =~= fields@);
        }
    }
}

/// The record of a fetch result as a sequence of (field, value) pairs.
pub open spec fn record_view(record: Option<Vec<(String, String)>>) -> Option<Seq<(String, String)>> {
    match record {
        Some(r) => Some(r@),
        None => None,
    }
}

/// A record yields a row for a lookup key exactly when one of its fields has
/// that name, and every row it yields names `source`.
pub proof fn lemma_rows_of_domain(source: Seq<char>, record: Seq<(String, String)>, f: Seq<char>)
    ensures
        rows_of(source, record).contains_key(f) <==> exists|i: int|
            0 <= i < record.len() && #[trigger] record[i].0@ == f,
        rows_of(source, record).contains_key(f) ==> rows_of(source, record)[f].0 == source,
    decreases record.len(),
{
    if record.len() > 0 {
        let init = record.drop_last();
        lemma_rows_of_domain(source, init, f);
        if rows_of(source, record).contains_key(f) && record.last().0@ != f {
            let i = choose|i: int| 0 <= i < init.len() && #[trigger] init[i].0@ == f;
            assert(record[i].0@ == f);
        }
        if exists|i: int| 0 <= i < record.len() && #[trigger] record[i].0@ == f {
            let i = choose|i: int| 0 <= i < record.len() && #[trigger] record[i].0@ == f;
            if i < record.len() - 1 {
                assert(init[i].0@ == f);
            }
        }
    }
}

/// Every row of `table` names one of `sources`.
pub open spec fn sourced_from(table: Map<Seq<char>, RowView>, sources: Seq<Seq<char>>) -> bool {
    forall|k: Seq<char>| #[trigger] table.contains_key(k) ==> sources.contains(table[k].0)
}

/// Materializing a record of one of `sources` keeps every row naming one of
/// `sources`.
pub proof fn lemma_materialized_sourced(
    table: Map<Seq<char>, RowView>,
    sources: Seq<Seq<char>>,
    source: Seq<char>,
    record: Option<Seq<(String, String)>>,
)
    requires
        sourced_from(table, sources),
        sources.contains(source),
    ensures
        sourced_from(materialized(table, source, record), sources),
{
    if let Some(r) = record {
        let m = materialized(table, source, record);
        assert forall|k: Seq<char>| #[trigger] m.contains_key(k) implies sources.contains(m[k].0) by {
            lemma_rows_of_domain(source, r, k);
        }
    }
}

/// Materializing the same record twice leaves the table as materializing it once.
pub proof fn lemma_materialize_idempotent(
    table: Map<Seq<char>, RowView>,
    source: Seq<char>,
    record: Option<Seq<(String, String)>>,
)
    ensures
        materialized(materialized(table, source, record), source, record) == materialized(
            table,
            source,
            record,
        ),
{
    assert(materialized(materialized(table, source, record), source, record) =~= materialized(
        table,
        source,
        record,
    ));
}

/// When the records of two sources both hold a field named `f`, the row for
/// `f` is the one of whichever record was materialized last, whatever the
/// table held before.
pub proof fn lemma_last_write_wins(
    table: Map<Seq<char>, RowView>,
    a: Seq<char>,
    record_a: Seq<(String, String)>,
    b: Seq<char>,
    record_b: Seq<(String, String)>,
    f: Seq<char>,
)
    requires
        exists|i: int| 0 <= i < record_a.len() && #[trigger] record_a[i].0@ == f,
        exists|i: int| 0 <= i < record_b.len() && #[trigger] record_b[i].0@ == f,
    ensures
        materialized(materialized(table, a, Some(record_a)), b, Some(record_b))[f] == rows_of(
            b,
            record_b,
        )[f],
        materialized(materialized(table, b, Some(record_b)), a, Some(record_a))[f] == rows_of(
            a,
            record_a,
        )[f],
        rows_of(b, record_b)[f].0 == b,
        rows_of(a, record_a)[f].0 == a,
{
    lemma_rows_of_domain(a, record_a, f);
    lemma_rows_of_domain(b, record_b, f);
}

/// Materializing never removes a lookup key: a key held before is held after,
/// also when the new record lacks that field or is absent.
pub proof fn lemma_no_delete(
    table: Map<Seq<char>, RowView>,
    source: Seq<char>,
    record: Option<Seq<(String, String)>>,
    f: Seq<char>,
)
    requires
        table.contains_key(f),
    ensures
        materialized(table, source, record).contains_key(f),
        record is None ==> materialized(table, source, record) == table,
        record matches Some(r) && !(exists|i: int| 0 <= i < r.len() && #[trigger] r[i].0@ == f)
            ==> materialized(table, source, record)[f] == table[f],
{
    if let Some(r) = record {
        lemma_rows_of_domain(source, r, f);
    }
}

} // verus!

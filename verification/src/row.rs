//! Result rows: a row maps column names to values, with its entries kept
//! in the order of their names, as a `BTreeMap<String, Value>` keeps them.

use vstd::prelude::*;

use crate::text::{compare_text, lex_irreflexive, lex_less, lex_transitive, lex_trichotomy, TextOrder};
use crate::value::{value_views, Value, ValueView};

verus! {

/// The names of a row's entries, in order.
pub open spec fn entry_keys(e: Seq<(String, Value)>) -> Seq<Seq<char>> {
    Seq::new(e.len(), |i: int| e[i].0@)
}

/// Names in strictly increasing order (so no name occurs twice).
pub open spec fn strictly_sorted(k: Seq<Seq<char>>) -> bool {
    forall|i: int, j: int| 0 <= i < j < k.len() ==> lex_less(#[trigger] k[i], #[trigger] k[j])
}

/// The map that a sequence of named entries stands for.
pub open spec fn entries_map(e: Seq<(String, Value)>) -> Map<Seq<char>, ValueView> {
    Map::new(
        |k: Seq<char>| entry_keys(e).contains(k),
        |k: Seq<char>| e[entry_keys(e).index_of(k)].1@,
    )
}

/// In sorted entries, the entry named `e[i].0` is `e[i]`.
pub proof fn entries_lookup(e: Seq<(String, Value)>, i: int)
    requires
        strictly_sorted(entry_keys(e)),
        0 <= i < e.len(),
    ensures
        entries_map(e).contains_key(e[i].0@),
        entries_map(e)[e[i].0@] == e[i].1@,
{
    let keys = entry_keys(e);
    assert(keys[i] == e[i].0@);
    assert(keys.contains(e[i].0@));
    let j = keys.index_of(e[i].0@);
    assert(0 <= j < keys.len() && keys[j] == e[i].0@);
    if j < i {
        assert(lex_less(keys[j], keys[i]));
        lex_irreflexive(keys[i], 0);
    } else if j > i {
        assert(lex_less(keys[i], keys[j]));
        lex_irreflexive(keys[i], 0);
    }
}

/// Sorted entries stand for `m` when every entry agrees with `m` and every
/// name of `m` has an entry.
pub proof fn entries_map_equals(e: Seq<(String, Value)>, m: Map<Seq<char>, ValueView>)
    requires
        strictly_sorted(entry_keys(e)),
        forall|j: int|
            0 <= j < e.len() ==> m.contains_key(#[trigger] e[j].0@) && m[e[j].0@] == e[j].1@,
        forall|k: Seq<char>| m.contains_key(k) ==> exists|j: int| 0 <= j < e.len() && #[trigger] e[j].0@ == k,
    ensures
        entries_map(e) == m,
{
    let keys = entry_keys(e);
    assert forall|k: Seq<char>| #[trigger] m.contains_key(k) implies keys.contains(k) by {
        let j = choose|j: int| 0 <= j < e.len() && #[trigger] e[j].0@ == k;
        assert(keys[j] == k);
    }
    assert forall|k: Seq<char>| #[trigger] keys.contains(k) implies m.contains_key(k) && entries_map(
        e,
    )[k] == m[k] by {
        let j = keys.index_of(k);
        assert(keys[j] == e[j].0@);
        entries_lookup(e, j);
    }
    assert(entries_map(e) =~= m);
}

/// Distinct positions of sorted names hold distinct names.
pub proof fn sorted_distinct(k: Seq<Seq<char>>, i: int, j: int)
    requires
        strictly_sorted(k),
        0 <= i < k.len(),
        0 <= j < k.len(),
        i != j,
    ensures
        k[i] != k[j],
{
    if i < j {
        assert(lex_less(k[i], k[j]));
        lex_trichotomy(k[i], k[j]);
    } else {
        assert(lex_less(k[j], k[i]));
        lex_trichotomy(k[j], k[i]);
    }
}

/// One row of a result set as the engine hands it over: the column names
/// and the column values, in the order of the statement's columns.
#[derive(Debug, PartialEq)]
pub struct SqliteRow {
    pub columns: Vec<String>,
    pub values: Vec<Value>,
}

/// A result row: a map from column name to value.
#[derive(Debug, PartialEq)]
pub struct Row {
    entries: Vec<(String, Value)>,
}

impl Row {
    #[verifier::type_invariant]
    spec fn sorted(&self) -> bool {
        strictly_sorted(entry_keys(self.entries@))
    }

    /// The entries in the order of their names.
    pub closed spec fn entry_seq(&self) -> Seq<(String, Value)> {
        self.entries@
    }

    /// The map from column name to value that the row stands for.
    pub closed spec fn view(&self) -> Map<Seq<char>, ValueView> {
        entries_map(self.entries@)
    }

    /// An empty row.
    pub fn new() -> (r: Row)
        ensures
            r.view() == Map::<Seq<char>, ValueView>::empty(),
    {
        let r = Row { entries: Vec::new() };
        assert(r.view() =~= Map::<Seq<char>, ValueView>::empty());
        r
    }

    /// Sets the value of `key`, returning the value it had before, if any.
    pub fn insert(&mut self, key: String, value: Value) -> (prev: Option<Value>)
        ensures
            final(self).view() == old(self).view().insert(key@, value@),
            match prev {
                Some(v) => old(self).view().contains_key(key@) && v@ == old(self).view()[key@],
                None => !old(self).view().contains_key(key@),
            },
    {
        proof {
            use_type_invariant(&*self);
        }
        let mut entries: Vec<(String, Value)> = Vec::new();
        std::mem::swap(&mut entries, &mut self.entries);
        let ghost e0 = entries@;
        let mut i: usize = 0;
        let mut found: bool = false;
        let mut placed: bool = false;
        while !placed && i < entries.len()
            invariant
                entries@ == e0,
                strictly_sorted(entry_keys(e0)),
                i <= e0.len(),
                forall|j: int| 0 <= j < i ==> lex_less(#[trigger] e0[j].0@, key@),
                !placed ==> !found,
                placed ==> i < e0.len(),
                placed && found ==> e0[i as int].0@ == key@,
                placed && !found ==> lex_less(key@, e0[i as int].0@),
            decreases e0.len() - i + (if placed { 0int } else { 1int }),
        {
            match compare_text(entries[i].0.as_str(), key.as_str()) {
                TextOrder::Less => {
                    i = i + 1;
                },
                TextOrder::Equal => {
                    found = true;
                    placed = true;
                },
                TextOrder::Greater => {
                    placed = true;
                },
            }
        }
        let ghost old_map = entries_map(e0);
        let prev = if found {
            proof {
                entries_lookup(e0, i as int);
            }
            let (_, prev_value) = entries.remove(i);
            entries.insert(i, (key, value));
            proof {
                let e1 = entries@;
                let m = old_map.insert(key@, value@);
                assert(entry_keys(e1) =~= entry_keys(e0));
                assert forall|j: int| 0 <= j < e1.len() implies m.contains_key(#[trigger] e1[j].0@)
                    && m[e1[j].0@] == e1[j].1@ by {
                    if j != i {
                        assert(e1[j] == e0[j]);
                        entries_lookup(e0, j);
                        sorted_distinct(entry_keys(e0), i as int, j);
                        assert(entry_keys(e0)[j] == e0[j].0@);
                    }
                }
                assert forall|k: Seq<char>| m.contains_key(k) implies exists|j: int|
                    0 <= j < e1.len() && #[trigger] e1[j].0@ == k by {
                    if k == key@ {
                        assert(e1[i as int].0@ == k);
                    } else {
                        let j = entry_keys(e0).index_of(k);
                        assert(entry_keys(e0)[j] == e0[j].0@);
                        assert(e1[j].0@ == k);
                    }
                }
                entries_map_equals(e1, m);
            }
            Some(prev_value)
        } else {
            proof {
                assert forall|j: int| 0 <= j < e0.len() implies e0[j].0@ != key@ by {
                    if j < i {
                        lex_trichotomy(e0[j].0@, key@);
                    } else {
                        if j > i {
                            assert(lex_less(entry_keys(e0)[i as int], entry_keys(e0)[j]));
                            lex_transitive(key@, e0[i as int].0@, e0[j].0@, 0);
                        }
                        lex_trichotomy(key@, e0[j].0@);
                    }
                }
                assert(!entry_keys(e0).contains(key@));
            }
            entries.insert(i, (key, value));
            proof {
                let e1 = entries@;
                assert forall|a: int, b: int|
                    0 <= a < b < e1.len() implies lex_less(
                    #[trigger] entry_keys(e1)[a],
                    #[trigger] entry_keys(e1)[b],
                ) by {
                    if b < i {
                        assert(entry_keys(e0)[a] == e1[a].0@);
                        assert(entry_keys(e0)[b] == e1[b].0@);
                    } else if b == i {
                    } else if a < i {
                        if b - 1 > i {
                            assert(lex_less(entry_keys(e0)[i as int], entry_keys(e0)[b - 1]));
                            lex_transitive(key@, e0[i as int].0@, e0[b - 1].0@, 0);
                        }
                        assert(e1[a] == e0[a]);
                        assert(e1[b] == e0[b - 1]);
                        lex_transitive(e1[a].0@, key@, e1[b].0@, 0);
                    } else if a == i {
                        if b - 1 > i {
                            assert(lex_less(entry_keys(e0)[i as int], entry_keys(e0)[b - 1]));
                            lex_transitive(key@, e0[i as int].0@, e0[b - 1].0@, 0);
                        }
                    } else {
                        assert(entry_keys(e0)[a - 1] == e1[a].0@);
                        assert(entry_keys(e0)[b - 1] == e1[b].0@);
                    }
                }
                let m = old_map.insert(key@, value@);
                assert forall|j: int| 0 <= j < e1.len() implies m.contains_key(#[trigger] e1[j].0@)
                    && m[e1[j].0@] == e1[j].1@ by {
                    if j < i {
                        assert(e1[j] == e0[j]);
                        entries_lookup(e0, j);
                    } else if j > i {
                        assert(e1[j] == e0[j - 1]);
                        entries_lookup(e0, j - 1);
                    }
                }
                assert forall|k: Seq<char>| m.contains_key(k) implies exists|j: int|
                    0 <= j < e1.len() && #[trigger] e1[j].0@ == k by {
                    if k == key@ {
                        assert(e1[i as int].0@ == k);
                    } else {
                        let j = entry_keys(e0).index_of(k);
                        assert(entry_keys(e0)[j] == e0[j].0@);
                        if j < i {
                            assert(e1[j].0@ == k);
                        } else {
                            assert(e1[j + 1].0@ == k);
                        }
                    }
                }
                entries_map_equals(e1, m);
            }
            None
        };
        self.entries = entries;
        prev
    }

    /// The value stored under `name`, if any.
    pub fn get(&self, name: &str) -> (r: Option<&Value>)
        ensures
            match r {
                Some(v) => self.view().contains_key(name@) && v@ == self.view()[name@],
                None => !self.view().contains_key(name@),
            },
    {
        proof {
            use_type_invariant(self);
        }
        let mut i: usize = 0;
        while i < self.entries.len()
            invariant
                strictly_sorted(entry_keys(self.entries@)),
                i <= self.entries@.len(),
                forall|j: int| 0 <= j < i ==> #[trigger] self.entries@[j].0@ != name@,
            decreases self.entries@.len() - i,
        {
            if compare_text(self.entries[i].0.as_str(), name) == TextOrder::Equal {
                proof {
                    entries_lookup(self.entries@, i as int);
                }
                return Some(&self.entries[i].1);
            }
            i = i + 1;
        }
        proof {
            if entry_keys(self.entries@).contains(name@) {
                let j = entry_keys(self.entries@).index_of(name@);
                assert(entry_keys(self.entries@)[j] == self.entries@[j].0@);
            }
        }
        None
    }

    /// The number of entries.
    pub fn len(&self) -> (n: usize)
        ensures
            n == self.view().len(),
            self.view().dom().finite(),
    {
        proof {
            use_type_invariant(self);
            let keys = entry_keys(self.entries@);
            assert forall|a: int, b: int| 0 <= a < keys.len() && 0 <= b < keys.len() && a != b implies keys[a] != keys[b] by {
                sorted_distinct(keys, a, b);
            }
            assert(keys.no_duplicates());
            keys.unique_seq_to_set();
            vstd::seq_lib::seq_to_set_is_finite(keys);
            assert(self.view().dom() =~= keys.to_set());
        }
        self.entries.len()
    }

    /// The entries, in the order of their names.
    pub fn entries(&self) -> (r: &[(String, Value)])
        ensures
            strictly_sorted(entry_keys(r@)),
            forall|j: int| 0 <= j < r@.len() ==> self.view().contains_key(#[trigger] r@[j].0@)
                && self.view()[r@[j].0@] == r@[j].1@,
            forall|k: Seq<char>| self.view().contains_key(k) ==> exists|j: int|
                0 <= j < r@.len() && #[trigger] r@[j].0@ == k,
    {
        proof {
            use_type_invariant(self);
            assert forall|j: int| 0 <= j < self.entries@.len() implies self.view().contains_key(
                #[trigger] self.entries@[j].0@,
            ) && self.view()[self.entries@[j].0@] == self.entries@[j].1@ by {
                entries_lookup(self.entries@, j);
            }
            assert forall|k: Seq<char>| self.view().contains_key(k) implies exists|j: int|
                0 <= j < self.entries@.len() && #[trigger] self.entries@[j].0@ == k by {
                let j = entry_keys(self.entries@).index_of(k);
                assert(entry_keys(self.entries@)[j] == self.entries@[j].0@);
            }
        }
        self.entries.as_slice()
    }
}

/// The map that collecting the first `n` (column, value) pairs gives, a
/// later column overriding an earlier one of the same name.
pub open spec fn zip_map(columns: Seq<String>, values: Seq<Value>, n: int) -> Map<
    Seq<char>,
    ValueView,
>
    decreases n,
{
    if n <= 0 {
        Map::empty()
    } else {
        zip_map(columns, values, n - 1).insert(columns[n - 1]@, values[n - 1]@)
    }
}

/// Reading a row after writing `key` gives the value written; every other
/// name reads as before.
pub proof fn row_read_after_write(
    m: Map<Seq<char>, ValueView>,
    key: Seq<char>,
    value: ValueView,
    other: Seq<char>,
)
    requires
        other != key,
    ensures
        m.insert(key, value).contains_key(key),
        m.insert(key, value)[key] == value,
        m.insert(key, value).contains_key(other) == m.contains_key(other),
        m.contains_key(other) ==> m.insert(key, value)[other] == m[other],
{
}

/// Collecting (column, value) pairs gives a map whose names are the first
/// `n` columns, each mapped to the value of its last occurrence among them.
pub proof fn zip_map_last_wins(columns: Seq<String>, values: Seq<Value>, n: int, i: int)
    requires
        0 <= i < n <= columns.len(),
        n <= values.len(),
        forall|j: int| i < j < n ==> (#[trigger] columns[j])@ != columns[i]@,
    ensures
        zip_map(columns, values, n).contains_key(columns[i]@),
        zip_map(columns, values, n)[columns[i]@] == values[i]@,
    decreases n,
{
    if n - 1 > i {
        zip_map_last_wins(columns, values, n - 1, i);
    }
}

/// The names of the map that collecting the first `n` pairs gives are
/// exactly the first `n` column names.
pub proof fn zip_map_names(columns: Seq<String>, values: Seq<Value>, n: int, k: Seq<char>)
    requires
        0 <= n <= columns.len(),
        n <= values.len(),
    ensures
        zip_map(columns, values, n).contains_key(k) <==> exists|j: int|
            0 <= j < n && (#[trigger] columns[j])@ == k,
    decreases n,
{
    if n > 0 {
        zip_map_names(columns, values, n - 1, k);
        if columns[n - 1]@ == k {
            assert(columns[n - 1]@ == k);
        }
    }
}

/// The map that a row from the engine stands for: its columns paired with
/// its values, as far as both go.
pub open spec fn sqlite_row_map(columns: Seq<String>, values: Seq<Value>) -> Map<Seq<char>, ValueView> {
    zip_map(columns, values, if columns.len() <= values.len() { columns.len() as int } else { values.len() as int })
}

/// The map that pairing the first `n` names of `columns` with the value
/// models `values` gives, a later column overriding an earlier one.
pub open spec fn zip_views(columns: Seq<String>, values: Seq<ValueView>, n: int) -> Map<
    Seq<char>,
    ValueView,
>
    decreases n,
{
    if n <= 0 {
        Map::empty()
    } else {
        zip_views(columns, values, n - 1).insert(columns[n - 1]@, values[n - 1])
    }
}

/// The map that a result row, given by the models of its values, stands
/// for: its columns paired with its values, as far as both go.
pub open spec fn row_map_of(columns: Seq<String>, values: Seq<ValueView>) -> Map<Seq<char>, ValueView> {
    zip_views(columns, values, if columns.len() <= values.len() { columns.len() as int } else { values.len() as int })
}

/// Pairing names with values and pairing them with the values' models give
/// the same map.
pub proof fn zip_map_is_zip_views(columns: Seq<String>, values: Seq<Value>, n: int)
    requires
        n <= values.len(),
    ensures
        zip_map(columns, values, n) == zip_views(columns, value_views(values), n),
    decreases n,
{
    if n > 0 {
        zip_map_is_zip_views(columns, values, n - 1);
    }
}

/// A row map depends on the values only through their models.
pub proof fn row_map_of_values(columns: Seq<String>, values: Seq<Value>)
    ensures
        sqlite_row_map(columns, values) == row_map_of(columns, value_views(values)),
{
    let n = if columns.len() <= values.len() { columns.len() as int } else { values.len() as int };
    zip_map_is_zip_views(columns, values, n);
}

/// Turns a row from the engine into a map from column name to value.
pub fn row_to_object(row: SqliteRow) -> (r: Row)
    ensures
        r.view() == sqlite_row_map(row.columns@, row.values@),
{
    let n: usize = if row.columns.len() <= row.values.len() {
        row.columns.len()
    } else {
        row.values.len()
    };
    let mut r = Row::new();
    let mut i: usize = 0;
    while i < n
        invariant
            n <= row.columns@.len(),
            n <= row.values@.len(),
            i <= n,
            r.view() == zip_map(row.columns@, row.values@, i as int),
        decreases n - i,
    {
        let key = row.columns[i].clone();
        let value = row.values[i].duplicate();
        r.insert(key, value);
        i = i + 1;
    }
    r
}

/// The value stored under `name` in `row`, if any.
pub fn row_value<'a>(row: &'a Row, name: &str) -> (r: Option<&'a Value>)
    ensures
        match r {
            Some(v) => row.view().contains_key(name@) && v@ == row.view()[name@],
            None => !row.view().contains_key(name@),
        },
{
    row.get(name)
}

} // verus!

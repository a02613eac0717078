//! A small table in memory: rows found by a key of two strings.
use vstd::prelude::*;

verus! {

/// One row of a table.
#[derive(Debug, Clone)]
pub struct Row<V> {
    pub a: String,
    pub b: String,
    pub value: V,
}

/// Rows found by a key of two strings. A key has one row at most.
#[derive(Debug, Clone)]
pub struct Table<V> {
    rows: Vec<Row<V>>,
}

/// The key of a row as contracts see it.
pub open spec fn key_of<V>(r: Row<V>) -> (Seq<char>, Seq<char>) {
    (r.a@, r.b@)
}

/// The table that a list of rows stands for: a later row for a key counts
/// over an earlier one.
pub open spec fn map_of<V>(rows: Seq<Row<V>>) -> Map<(Seq<char>, Seq<char>), V>
    decreases rows.len(),
{
    if rows.len() == 0 {
        Map::empty()
    } else {
        map_of(rows.drop_last()).insert(key_of(rows.last()), rows.last().value)
    }
}

/// The rows whose key is not `k`, in their order.
pub open spec fn rows_without<V>(rows: Seq<Row<V>>, k: (Seq<char>, Seq<char>)) -> Seq<Row<V>>
    decreases rows.len(),
{
    if rows.len() == 0 {
        Seq::empty()
    } else if key_of(rows.last()) == k {
        rows_without(rows.drop_last(), k)
    } else {
        rows_without(rows.drop_last(), k).push(rows.last())
    }
}

proof fn lemma_rows_without<V>(rows: Seq<Row<V>>, k: (Seq<char>, Seq<char>))
    ensures
        map_of(rows_without(rows, k)) == map_of(rows).remove(k),
    decreases rows.len(),
{
    if rows.len() == 0 {
        assert(map_of(rows).remove(k) =~= Map::<(Seq<char>, Seq<char>), V>::empty());
    } else {
        let rest = rows.drop_last();
        let l = rows.last();
        lemma_rows_without(rest, k);
        if key_of(l) == k {
            assert(map_of(rest).insert(k, l.value).remove(k) =~= map_of(rest).remove(k));
        } else {
            let w = rows_without(rest, k).push(l);
            assert(w.drop_last() =~= rows_without(rest, k));
            assert(w.last() == l);
            assert(map_of(rest).remove(k).insert(key_of(l), l.value) =~= map_of(rest).insert(
                key_of(l),
                l.value,
            ).remove(k));
        }
    }
}

/// The table found by the first string of its keys alone, where the second
/// is empty, with each row seen through `f`.
pub open spec fn by_first<V, W>(m: Map<(Seq<char>, Seq<char>), V>, f: spec_fn(V) -> W) -> Map<
    Seq<char>,
    W,
> {
    Map::new(
        |k: Seq<char>| m.contains_key((k, Seq::<char>::empty())),
        |k: Seq<char>| f(m[(k, Seq::<char>::empty())]),
    )
}

/// Whether a row of `rows` has the key `k`.
pub open spec fn has_key<V>(rows: Seq<Row<V>>, k: (Seq<char>, Seq<char>)) -> bool {
    exists|i: int| 0 <= i < rows.len() && key_of(#[trigger] rows[i]) == k
}

proof fn lemma_map_of_keys<V>(rows: Seq<Row<V>>, k: (Seq<char>, Seq<char>))
    ensures
        map_of(rows).contains_key(k) <==> has_key(rows, k),
    decreases rows.len(),
{
    if rows.len() > 0 {
        let rest = rows.drop_last();
        lemma_map_of_keys(rest, k);
        if has_key(rest, k) {
            let i = choose|i: int| 0 <= i < rest.len() && key_of(#[trigger] rest[i]) == k;
            assert(key_of(rows[i]) == k);
        }
        if key_of(rows.last()) == k {
            assert(key_of(rows[rows.len() - 1]) == k);
        }
        if has_key(rows, k) {
            let i = choose|i: int| 0 <= i < rows.len() && key_of(#[trigger] rows[i]) == k;
            if i < rest.len() {
                assert(key_of(rest[i]) == k);
            }
        }
    }
}

/// A key of a table.
#[derive(Debug, Clone, PartialEq, Eq)]
pub struct Key {
    pub a: String,
    pub b: String,
}

/// Keys as contracts see them.
pub open spec fn key_views(v: Seq<Key>) -> Seq<(Seq<char>, Seq<char>)> {
    v.map_values(|k: Key| (k.a@, k.b@))
}

impl<V> View for Table<V> {
    type V = Map<(Seq<char>, Seq<char>), V>;

    closed spec fn view(&self) -> Map<(Seq<char>, Seq<char>), V> {
        map_of(self.rows@)
    }
}

impl<V> Table<V> {
    /// The table without rows.
    pub fn new() -> (t: Table<V>)
        ensures
            t@ == Map::<(Seq<char>, Seq<char>), V>::empty(),
    {
        Table { rows: Vec::new() }
    }

    /// The row for the key `(a, b)`, if there is one.
    pub fn get(&self, a: &str, b: &str) -> (r: Option<&V>)
        ensures
            match r {
                Some(v) => self@.contains_key((a@, b@)) && self@[(a@, b@)] == *v,
                None => !self@.contains_key((a@, b@)),
            },
    {
        let first = String::from_str(a);
        let second = String::from_str(b);
        let mut i: usize = self.rows.len();
        assert(self.rows@.take(i as int) =~= self.rows@);
        while i > 0
            invariant
                first@ == a@,
                second@ == b@,
                i <= self.rows.len(),
                map_of(self.rows@).contains_key((a@, b@)) == map_of(
                    self.rows@.take(i as int),
                ).contains_key((a@, b@)),
                map_of(self.rows@).contains_key((a@, b@)) ==> map_of(self.rows@)[(a@, b@)]
                    == map_of(self.rows@.take(i as int))[(a@, b@)],
            decreases i,
        {
            let row = &self.rows[i - 1];
            proof {
                let t = self.rows@.take(i as int);
                assert(t.drop_last() =~= self.rows@.take(i - 1));
                assert(t.last() == *row);
            }
            if row.a == first && row.b == second {
                return Some(&row.value);
            }
            i -= 1;
        }
        None
    }

    /// The keys of the table, each once.
    pub fn keys(&self) -> (r: Vec<Key>)
        ensures
            key_views(r@).no_duplicates(),
            forall|k: (Seq<char>, Seq<char>)| key_views(r@).contains(k) <==> self@.contains_key(k),
    {
        let mut r: Vec<Key> = Vec::new();
        let mut i: usize = 0;
        while i < self.rows.len()
            invariant
                i <= self.rows.len(),
                key_views(r@).no_duplicates(),
                forall|k: (Seq<char>, Seq<char>)|
                    key_views(r@).contains(k) <==> has_key(self.rows@.take(i as int), k),
            decreases self.rows.len() - i,
        {
            let row = &self.rows[i];
            let ghost before = key_views(r@);
            let ghost seen = self.rows@.take(i as int);
            let ghost next = self.rows@.take(i + 1);
            let mut j: usize = 0;
            let mut known = false;
            while j < r.len()
                invariant
                    j <= r.len(),
                    known <==> exists|q: int| 0 <= q < j && key_views(r@)[q] == key_of(*row),
                decreases r.len() - j,
            {
                if r[j].a == row.a && r[j].b == row.b {
                    assert(key_views(r@)[j as int] == key_of(*row));
                    known = true;
                }
                j += 1;
            }
            assert(known <==> before.contains(key_of(*row)));
            if !known {
                r.push(Key { a: row.a.clone(), b: row.b.clone() });
                assert(key_views(r@) =~= before.push(key_of(*row)));
            }
            proof {
                let after = key_views(r@);
                assert forall|k: (Seq<char>, Seq<char>)| after.contains(k) <==> has_key(
                    next,
                    k,
                ) by {
                    if has_key(seen, k) {
                        let q = choose|q: int| 0 <= q < seen.len() && key_of(#[trigger] seen[q]) == k;
                        assert(key_of(next[q]) == k);
                    }
                    if has_key(next, k) {
                        let q = choose|q: int| 0 <= q < next.len() && key_of(#[trigger] next[q]) == k;
                        if q < i {
                            assert(key_of(seen[q]) == k);
                        } else {
                            assert(k == key_of(*row));
                        }
                    }
                    if k == key_of(*row) {
                        assert(key_of(next[i as int]) == k);
                    }
                    if before.contains(k) {
                        let q = choose|q: int| 0 <= q < before.len() && before[q] == k;
                        assert(after[q] == k);
                    }
                    if after.contains(k) && !known {
                        let q = choose|q: int| 0 <= q < after.len() && after[q] == k;
                        if q < before.len() {
                            assert(before[q] == k);
                        }
                    }
                    if !known {
                        assert(after[after.len() - 1] == key_of(*row));
                    }
                }
            }
            i += 1;
        }
        proof {
            assert(self.rows@.take(self.rows.len() as int) =~= self.rows@);
            assert forall|k: (Seq<char>, Seq<char>)| key_views(r@).contains(k)
                <==> self@.contains_key(k) by {
                lemma_map_of_keys(self.rows@, k);
            }
        }
        r
    }

    /// Takes out the row for the key `(a, b)` and gives what it held, if there
    /// is one.
    pub fn take(&mut self, a: &str, b: &str) -> (r: Option<V>)
        ensures
            final(self)@ == old(self)@.remove((a@, b@)),
            match r {
                Some(v) => old(self)@.contains_key((a@, b@)) && old(self)@[(a@, b@)] == v,
                None => !old(self)@.contains_key((a@, b@)),
            },
    {
        let first = String::from_str(a);
        let second = String::from_str(b);
        let ghost orig = self.rows@;
        let ghost k = (a@, b@);
        let ghost mut done: int = 0;
        let mut found: Option<V> = None;
        let mut i: usize = 0;
        assert(orig.take(0) =~= Seq::<Row<V>>::empty());
        assert(orig.skip(0) =~= orig);
        assert(rows_without(orig.take(0), k) + orig.skip(0) =~= orig);
        while i < self.rows.len()
            invariant
                first@ == a@,
                second@ == b@,
                k == (a@, b@),
                0 <= done <= orig.len(),
                i == rows_without(orig.take(done), k).len(),
                self.rows@ == rows_without(orig.take(done), k) + orig.skip(done),
                match found {
                    Some(v) => map_of(orig.take(done)).contains_key(k) && map_of(
                        orig.take(done),
                    )[k] == v,
                    None => !map_of(orig.take(done)).contains_key(k),
                },
            decreases self.rows.len() - i,
        {
            let ghost kept = rows_without(orig.take(done), k);
            proof {
                assert(self.rows@.len() == kept.len() + orig.skip(done).len());
                assert(done < orig.len());
                assert(self.rows@[i as int] == orig.skip(done)[0]);
                assert(orig.take(done + 1).drop_last() =~= orig.take(done));
                assert(orig.take(done + 1).last() == orig[done]);
            }
            let matches = self.rows[i].a == first && self.rows[i].b == second;
            if matches {
                let row = self.rows.remove(i);
                found = Some(row.value);
                assert(self.rows@ =~= kept + orig.skip(done + 1));
            } else {
                assert(self.rows@ =~= kept.push(orig[done]) + orig.skip(done + 1));
                i += 1;
            }
            proof {
                done = done + 1;
            }
        }
        proof {
            assert(self.rows@.len() == i + orig.skip(done).len());
            assert(done == orig.len());
            assert(orig.take(done) =~= orig);
            assert(self.rows@ =~= rows_without(orig, k));
            lemma_rows_without(orig, k);
        }
        found
    }

    /// Takes out the row for the key `(a, b)`, if there is one.
    pub fn remove(&mut self, a: &str, b: &str)
        ensures
            final(self)@ == old(self)@.remove((a@, b@)),
    {
        let _ = self.take(a, b);
    }

    /// Sets the row for the key `(a, b)`.
    pub fn put(&mut self, a: String, b: String, value: V)
        ensures
            final(self)@ == old(self)@.insert((a@, b@), value),
    {
        self.remove(a.as_str(), b.as_str());
        let ghost before = self.rows@;
        self.rows.push(Row { a, b, value });
        proof {
            assert(self.rows@.drop_last() =~= before);
            assert(old(self)@.remove((a@, b@)).insert((a@, b@), value) =~= old(self)@.insert(
                (a@, b@),
                value,
            ));
        }
    }
}

} // verus!

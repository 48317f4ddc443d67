//! Tables of rows under unique keys.

use vstd::prelude::*;

verus! {

/// A row of a table: a key that identifies it, and the rest of its columns.
pub trait Row: Sized {
    type Key;

    type Data;

    /// The primary key of the row.
    spec fn key(&self) -> Self::Key;

    /// The columns outside the key.
    spec fn data(&self) -> Self::Data;

    fn same_key(&self, other: &Self) -> (same: bool)
        ensures
            same == (self.key() == other.key()),
    ;
}

/// A condition on rows.
pub trait Filter<R: Row> {
    spec fn accepts(&self, key: R::Key, data: R::Data) -> bool;

    fn test(&self, row: &R) -> (accepted: bool)
        ensures
            accepted == self.accepts(row.key(), row.data()),
    ;
}

/// A change to the columns of a row outside its key.
pub trait Update<R: Row> {
    spec fn changed(&self, data: R::Data) -> R::Data;

    fn run(&self, row: &mut R)
        ensures
            final(row).key() == old(row).key(),
            final(row).data() == self.changed(old(row).data()),
    ;
}

/// An order of rows by up to three numbers, the first one first.
pub trait Order<R: Row> {
    spec fn rank(&self, key: R::Key, data: R::Data) -> (int, int, int);

    fn rank_of(&self, row: &R) -> (rank: (i64, i64, i64))
        ensures
            (rank.0 as int, rank.1 as int, rank.2 as int) == self.rank(row.key(), row.data()),
    ;
}

/// The order of ranks: the first number that differs decides.
pub open spec fn rank_le(a: (int, int, int), b: (int, int, int)) -> bool {
    a.0 < b.0 || (a.0 == b.0 && (a.1 < b.1 || (a.1 == b.1 && a.2 <= b.2)))
}

fn rank_exceeds(a: (i64, i64, i64), b: (i64, i64, i64)) -> (exceeds: bool)
    ensures
        exceeds == !rank_le(
            (a.0 as int, a.1 as int, a.2 as int),
            (b.0 as int, b.1 as int, b.2 as int),
        ),
{
    a.0 > b.0 || (a.0 == b.0 && (a.1 > b.1 || (a.1 == b.1 && a.2 > b.2)))
}

/// No two rows have the same key.
pub open spec fn keys_unique<R: Row>(rows: Seq<R>) -> bool {
    forall|i: int, j: int|
        0 <= i < rows.len() && 0 <= j < rows.len() && i != j ==> (#[trigger] rows[i]).key() != (
        #[trigger] rows[j]).key()
}

/// Some row of the list has the key.
pub open spec fn has_key<R: Row>(rows: Seq<R>, key: R::Key) -> bool {
    exists|i: int| 0 <= i < rows.len() && (#[trigger] rows[i]).key() == key
}

/// The rows of a list by their keys.
pub open spec fn rows_by_key<R: Row>(rows: Seq<R>) -> Map<R::Key, R::Data> {
    Map::new(
        |key: R::Key| has_key(rows, key),
        |key: R::Key|
            rows[choose|i: int| 0 <= i < rows.len() && (#[trigger] rows[i]).key() == key].data(),
    )
}

proof fn lemma_row_found<R: Row>(rows: Seq<R>, i: int)
    requires
        keys_unique(rows),
        0 <= i < rows.len(),
    ensures
        rows_by_key(rows).contains_key(rows[i].key()),
        rows_by_key(rows)[rows[i].key()] == rows[i].data(),
{
    let key = rows[i].key();
    let found = choose|j: int| 0 <= j < rows.len() && (#[trigger] rows[j]).key() == key;
    assert(rows[i].key() == key);
    assert(found == i);
}

/// The keys of the rows that a filter accepts.
pub open spec fn accepted<R: Row, F: Filter<R>>(table: Map<R::Key, R::Data>, filter: F) -> Set<
    R::Key,
> {
    table.dom().filter(|key: R::Key| filter.accepts(key, table[key]))
}

/// The rows that a filter does not accept.
pub open spec fn rejected<R: Row, F: Filter<R>>(table: Map<R::Key, R::Data>, filter: F) -> Map<
    R::Key,
    R::Data,
> {
    table.remove_keys(accepted::<R, F>(table, filter))
}

/// The rows of a table, with a change applied to those that a filter accepts.
pub open spec fn updated<R: Row, F: Filter<R>, U: Update<R>>(
    table: Map<R::Key, R::Data>,
    filter: F,
    update: U,
) -> Map<R::Key, R::Data> {
    table.map_entries(
        |key: R::Key, data: R::Data|
            if filter.accepts(key, data) {
                update.changed(data)
            } else {
                data
            },
    )
}

/// The rows that a filter accepts, each one once, in an order.
pub open spec fn lists<R: Row, F: Filter<R>, O: Order<R>>(
    keys: Seq<R::Key>,
    table: Map<R::Key, R::Data>,
    filter: F,
    order: O,
) -> bool {
    &&& keys.no_duplicates()
    &&& keys.to_set() == accepted::<R, F>(table, filter)
    &&& forall|i: int, j: int|
        0 <= i < j < keys.len() ==> rank_le(
            order.rank(#[trigger] keys[i], table[keys[i]]),
            order.rank(#[trigger] keys[j], table[keys[j]]),
        )
}

/// A filter splits a table: the rows that it accepts are those that are removed
/// or changed, and all others stay as they are.
pub proof fn law_filters_split_tables<R: Row, F: Filter<R>, U: Update<R>>(
    table: Map<R::Key, R::Data>,
    filter: F,
    update: U,
    key: R::Key,
)
    ensures
        ({
            let held = table.contains_key(key);
            let takes = filter.accepts(key, table[key]);
            let left = rejected::<R, F>(table, filter);
            let next = updated::<R, F, U>(table, filter, update);
            &&& accepted::<R, F>(table, filter).contains(key) <==> held && takes
            &&& left.contains_key(key) <==> held && !takes
            &&& left.contains_key(key) ==> left[key] == table[key]
            &&& next.contains_key(key) <==> held
            &&& held && takes ==> next[key] == update.changed(table[key])
            &&& held && !takes ==> next[key] == table[key]
        }),
{
}

/// A listing holds the rows that a filter accepts, each one once, and none
/// before another one of a lower rank.
pub proof fn law_listings_are_ordered<R: Row, F: Filter<R>, O: Order<R>>(
    keys: Seq<R::Key>,
    table: Map<R::Key, R::Data>,
    filter: F,
    order: O,
    key: R::Key,
    i: int,
    j: int,
)
    requires
        lists::<R, F, O>(keys, table, filter, order),
    ensures
        keys.contains(key) <==> table.contains_key(key) && filter.accepts(key, table[key]),
        0 <= i < j < keys.len() ==> keys[i] != keys[j] && {
            let a = order.rank(keys[i], table[keys[i]]);
            let b = order.rank(keys[j], table[keys[j]]);
            a.0 < b.0 || (a.0 == b.0 && (a.1 < b.1 || (a.1 == b.1 && a.2 <= b.2)))
        },
{
    assert(keys.to_set().contains(key) == keys.contains(key));
}

/// The keys of a list of rows.
pub open spec fn keys_of<R: Row>(rows: Seq<&R>) -> Seq<R::Key> {
    Seq::new(rows.len(), |i: int| rows[i].key())
}

/// Rows under unique keys.
pub struct Table<R: Row> {
    rows: Vec<R>,
}

impl<R: Row> View for Table<R> {
    type V = Map<R::Key, R::Data>;

    closed spec fn view(&self) -> Map<R::Key, R::Data> {
        rows_by_key(self.rows@)
    }
}

impl<R: Row> Table<R> {
    #[verifier::type_invariant]
    spec fn well_formed(self) -> bool {
        keys_unique(self.rows@)
    }

    /// A table without rows.
    pub fn new() -> (table: Self)
        ensures
            table@ == Map::<R::Key, R::Data>::empty(),
    {
        let table = Table { rows: Vec::new() };
        assert(table@ =~= Map::<R::Key, R::Data>::empty());
        table
    }

    /// All rows, in no particular order.
    pub fn rows(&self) -> (rows: &Vec<R>)
        ensures
            keys_unique(rows@),
            rows_by_key(rows@) == self@,
    {
        proof {
            use_type_invariant(self);
        }
        &self.rows
    }

    /// Looks for a row that the filter accepts.
    pub fn find<F: Filter<R>>(&self, filter: &F) -> (found: Option<&R>)
        ensures
            match found {
                Some(row) => self@.contains_key(row.key()) && self@[row.key()] == row.data()
                    && filter.accepts(row.key(), row.data()),
                None => forall|key: R::Key| #[trigger]
                    self@.contains_key(key) ==> !filter.accepts(key, self@[key]),
            },
    {
        proof {
            use_type_invariant(self);
        }
        let mut i: usize = 0;
        while i < self.rows.len()
            invariant
                i <= self.rows@.len(),
                keys_unique(self.rows@),
                forall|j: int|
                    0 <= j < i ==> !filter.accepts(
                        (#[trigger] self.rows@[j]).key(),
                        self.rows@[j].data(),
                    ),
            decreases self.rows.len() - i,
        {
            let row = &self.rows[i];
            if filter.test(row) {
                proof {
                    lemma_row_found(self.rows@, i as int);
                }
                return Some(row);
            }
            i += 1;
        }
        proof {
            assert forall|key: R::Key| #[trigger] self@.contains_key(key) implies !filter.accepts(
                key,
                self@[key],
            ) by {
                let j = choose|j: int|
                    0 <= j < self.rows@.len() && (#[trigger] self.rows@[j]).key() == key;
                lemma_row_found(self.rows@, j);
            }
        }
        None
    }

    /// Counts the rows that the filter accepts.
    pub fn count<F: Filter<R>>(&self, filter: &F) -> (n: usize)
        ensures
            accepted::<R, F>(self@, *filter).finite(),
            n == accepted::<R, F>(self@, *filter).len(),
    {
        proof {
            use_type_invariant(self);
        }
        let mut n: usize = 0;
        let mut i: usize = 0;
        let ghost mut seen: Set<R::Key> = Set::empty();
        while i < self.rows.len()
            invariant
                i <= self.rows@.len(),
                n <= i,
                keys_unique(self.rows@),
                seen.finite(),
                seen.len() == n,
                forall|key: R::Key|
                    seen.contains(key) <==> exists|j: int|
                        0 <= j < i && (#[trigger] self.rows@[j]).key() == key && filter.accepts(
                            key,
                            self.rows@[j].data(),
                        ),
            decreases self.rows.len() - i,
        {
            let row = &self.rows[i];
            let ghost before = seen;
            if filter.test(row) {
                assert(!seen.contains(row.key()));
                n += 1;
                proof {
                    seen = seen.insert(row.key());
                }
            }
            proof {
                assert forall|key: R::Key|
                    seen.contains(key) <==> exists|j: int|
                        0 <= j < i + 1 && (#[trigger] self.rows@[j]).key() == key
                            && filter.accepts(key, self.rows@[j].data()) by {
                    if seen.contains(key) {
                        if before.contains(key) {
                            let j = choose|j: int|
                                0 <= j < i && (#[trigger] self.rows@[j]).key() == key
                                    && filter.accepts(key, self.rows@[j].data());
                            assert(self.rows@[j].key() == key);
                        } else {
                            assert(self.rows@[i as int].key() == key);
                        }
                    }
                }
            }
            i += 1;
        }
        proof {
            assert forall|key: R::Key|
                seen.contains(key) == accepted::<R, F>(self@, *filter).contains(key) by {
                if has_key(self.rows@, key) {
                    let j = choose|j: int|
                        0 <= j < self.rows@.len() && (#[trigger] self.rows@[j]).key() == key;
                    lemma_row_found(self.rows@, j);
                }
            }
            assert(seen =~= accepted::<R, F>(self@, *filter));
        }
        n
    }

    /// Stores a row, in place of a row with the same key if there is one.
    pub fn put(&mut self, row: R)
        ensures
            final(self)@ == old(self)@.insert(row.key(), row.data()),
    {
        proof {
            use_type_invariant(&*self);
        }
        let ghost key = row.key();
        let ghost data = row.data();
        let mut rows: Vec<R> = Vec::new();
        core::mem::swap(&mut rows, &mut self.rows);
        let ghost before = rows@;
        let mut i: usize = 0;
        while i < rows.len()
            invariant
                i <= rows@.len(),
                rows@ == before,
                keys_unique(before),
                key == row.key(),
                forall|j: int| 0 <= j < i ==> (#[trigger] before[j]).key() != key,
            ensures
                i <= rows@.len(),
                rows@ == before,
                key == row.key(),
                i < before.len() ==> before[i as int].key() == key,
                forall|j: int| 0 <= j < i ==> (#[trigger] before[j]).key() != key,
            decreases rows.len() - i,
        {
            if row.same_key(&rows[i]) {
                break;
            }
            i += 1;
        }
        if i < rows.len() {
            rows.set(i, row);
        } else {
            rows.push(row);
        }
        proof {
            assert(forall|j: int| 0 <= j < before.len() && j != i ==> rows@[j] == before[j]);
            assert(rows@[i as int].key() == key);
            assert(keys_unique(rows@));
            assert(rows_by_key(rows@) =~= rows_by_key(before).insert(key, data)) by {
                lemma_row_found(rows@, i as int);
                assert forall|k: R::Key|
                    (#[trigger] has_key(rows@, k) <==> (k == key || has_key(before, k))) && (
                    has_key(before, k) && k != key ==> rows_by_key(rows@)[k] == rows_by_key(
                        before,
                    )[k]) by {
                    if has_key(before, k) {
                        let j = choose|j: int|
                            0 <= j < before.len() && (#[trigger] before[j]).key() == k;
                        lemma_row_found(before, j);
                        if k != key {
                            assert(rows@[j].key() == k);
                            lemma_row_found(rows@, j);
                        }
                    }
                    if has_key(rows@, k) && k != key {
                        let j = choose|j: int|
                            0 <= j < rows@.len() && (#[trigger] rows@[j]).key() == k;
                        assert(before[j].key() == k);
                    }
                }
            }
        }
        self.rows = rows;
    }

    /// Takes a row out of the table that the filter accepts.
    pub fn take<F: Filter<R>>(&mut self, filter: &F) -> (taken: Option<R>)
        ensures
            match taken {
                Some(row) => old(self)@.contains_key(row.key()) && old(self)@[row.key()]
                    == row.data() && filter.accepts(row.key(), row.data()) && final(self)@ == old(
                    self,
                )@.remove(row.key()),
                None => final(self)@ == old(self)@ && forall|key: R::Key| #[trigger]
                    old(self)@.contains_key(key) ==> !filter.accepts(key, old(self)@[key]),
            },
    {
        proof {
            use_type_invariant(&*self);
        }
        let mut rows: Vec<R> = Vec::new();
        core::mem::swap(&mut rows, &mut self.rows);
        let ghost before = rows@;
        let mut i: usize = 0;
        while i < rows.len()
            invariant
                i <= rows@.len(),
                rows@ == before,
                keys_unique(before),
                rows_by_key(before) == old(self)@,
                self.rows@ == Seq::<R>::empty(),
                forall|j: int|
                    0 <= j < i ==> !filter.accepts(
                        (#[trigger] before[j]).key(),
                        before[j].data(),
                    ),
            decreases rows.len() - i,
        {
            if filter.test(&rows[i]) {
                let row = rows.remove(i);
                proof {
                    let key = before[i as int].key();
                    lemma_row_found(before, i as int);
                    assert forall|k: R::Key|
                        (#[trigger] has_key(rows@, k) <==> (k != key && has_key(before, k))) && (
                        has_key(rows@, k) ==> rows_by_key(rows@)[k] == rows_by_key(before)[k]) by {
                        if has_key(rows@, k) {
                            let j = choose|j: int|
                                0 <= j < rows@.len() && (#[trigger] rows@[j]).key() == k;
                            let o = if j < i {
                                j
                            } else {
                                j + 1
                            };
                            assert(rows@[j] == before[o]);
                            lemma_row_found(rows@, j);
                            lemma_row_found(before, o);
                        }
                        if k != key && has_key(before, k) {
                            let o = choose|o: int|
                                0 <= o < before.len() && (#[trigger] before[o]).key() == k;
                            let j = if o < i {
                                o
                            } else {
                                o - 1
                            };
                            assert(rows@[j] == before[o]);
                        }
                    }
                    assert(rows_by_key(rows@) =~= rows_by_key(before).remove(key));
                }
                self.rows = rows;
                return Some(row);
            }
            i += 1;
        }
        proof {
            assert forall|key: R::Key| #[trigger]
                old(self)@.contains_key(key) implies !filter.accepts(key, old(self)@[key]) by {
                let j = choose|j: int| 0 <= j < before.len() && (#[trigger] before[j]).key() == key;
                lemma_row_found(before, j);
            }
        }
        self.rows = rows;
        None
    }

    /// Removes the rows that the filter accepts and says how many they were.
    pub fn remove_where<F: Filter<R>>(&mut self, filter: &F) -> (n: usize)
        ensures
            final(self)@ == rejected::<R, F>(old(self)@, *filter),
            accepted::<R, F>(old(self)@, *filter).finite(),
            n == accepted::<R, F>(old(self)@, *filter).len(),
    {
        proof {
            use_type_invariant(&*self);
        }
        let n: usize = self.count(filter);
        let mut rows: Vec<R> = Vec::new();
        core::mem::swap(&mut rows, &mut self.rows);
        let ghost before = rows@;
        let ghost table = rows_by_key(before);
        proof {
            assert forall|j: int| 0 <= j < before.len() implies table.contains_key(
                (#[trigger] before[j]).key(),
            ) && table[before[j].key()] == before[j].data() by {
                lemma_row_found(before, j);
            }
        }
        let mut i: usize = 0;
        while i < rows.len()
            invariant
                i <= rows@.len(),
                keys_unique(rows@),
                forall|j: int|
                    0 <= j < rows@.len() ==> table.contains_key((#[trigger] rows@[j]).key())
                        && table[rows@[j].key()] == rows@[j].data(),
                forall|key: R::Key| #[trigger]
                    table.contains_key(key) && !filter.accepts(key, table[key]) ==> has_key(
                        rows@,
                        key,
                    ),
                forall|j: int|
                    0 <= j < i ==> !filter.accepts(
                        (#[trigger] rows@[j]).key(),
                        rows@[j].data(),
                    ),
            decreases rows.len() - i,
        {
            if filter.test(&rows[i]) {
                let ghost whole = rows@;
                rows.remove(i);
                proof {
                    assert forall|key: R::Key| #[trigger]
                        table.contains_key(key) && !filter.accepts(
                            key,
                            table[key],
                        ) implies has_key(rows@, key) by {
                        let j = choose|j: int|
                            0 <= j < whole.len() && (#[trigger] whole[j]).key() == key;
                        assert(j != i);
                        if j < i {
                            assert(rows@[j].key() == key);
                        } else {
                            assert(rows@[j - 1].key() == key);
                        }
                    }
                }
            } else {
                i += 1;
            }
        }
        proof {
            let left = rejected::<R, F>(table, *filter);
            assert forall|key: R::Key| #[trigger] has_key(rows@, key) implies left.contains_key(
                key,
            ) && rows_by_key(rows@)[key] == left[key] by {
                let j = choose|j: int| 0 <= j < rows@.len() && (#[trigger] rows@[j]).key() == key;
                lemma_row_found(rows@, j);
            }
            assert(rows_by_key(rows@) =~= left);
        }
        self.rows = rows;
        n
    }

    /// Changes the rows that the filter accepts.
    pub fn update_where<F: Filter<R>, U: Update<R>>(&mut self, filter: &F, update: &U)
        ensures
            final(self)@ == updated::<R, F, U>(old(self)@, *filter, *update),
    {
        proof {
            use_type_invariant(&*self);
        }
        let mut rows: Vec<R> = Vec::new();
        core::mem::swap(&mut rows, &mut self.rows);
        let ghost before = rows@;
        let mut i: usize = 0;
        while i < rows.len()
            invariant
                i <= rows@.len(),
                rows@.len() == before.len(),
                forall|j: int|
                    0 <= j < before.len() ==> (#[trigger] rows@[j]).key() == before[j].key(),
                forall|j: int|
                    0 <= j < i ==> (#[trigger] rows@[j]).data() == (if filter.accepts(
                        before[j].key(),
                        before[j].data(),
                    ) {
                        update.changed(before[j].data())
                    } else {
                        before[j].data()
                    }),
                forall|j: int| i <= j < before.len() ==> rows@[j] == before[j],
            decreases rows.len() - i,
        {
            if filter.test(&rows[i]) {
                update.run(&mut rows[i]);
            }
            i += 1;
        }
        proof {
            assert(keys_unique(rows@)) by {
                assert forall|a: int, b: int|
                    0 <= a < rows@.len() && 0 <= b < rows@.len() && a != b implies (
                #[trigger] rows@[a]).key() != (#[trigger] rows@[b]).key() by {
                    assert(before[a].key() != before[b].key());
                }
            }
            let result = updated::<R, F, U>(rows_by_key(before), *filter, *update);
            assert forall|key: R::Key|
                (#[trigger] has_key(rows@, key) <==> has_key(before, key)) && (has_key(
                    before,
                    key,
                ) ==> rows_by_key(rows@)[key] == result[key]) by {
                if has_key(before, key) {
                    let j = choose|j: int|
                        0 <= j < before.len() && (#[trigger] before[j]).key() == key;
                    assert(rows@[j].key() == key);
                    lemma_row_found(rows@, j);
                    lemma_row_found(before, j);
                }
                if has_key(rows@, key) {
                    let j = choose|j: int|
                        0 <= j < rows@.len() && (#[trigger] rows@[j]).key() == key;
                    assert(before[j].key() == key);
                }
            }
            assert(rows_by_key(rows@) =~= result);
        }
        self.rows = rows;
    }

    /// Lists the rows that the filter accepts, in the given order.
    pub fn select<F: Filter<R>, O: Order<R>>(&self, filter: &F, order: &O) -> (found: Vec<&R>)
        ensures
            lists::<R, F, O>(keys_of(found@), self@, *filter, *order),
            forall|i: int|
                0 <= i < found@.len() ==> self@.contains_key((#[trigger] found@[i]).key())
                    && self@[found@[i].key()] == found@[i].data() && filter.accepts(
                    found@[i].key(),
                    found@[i].data(),
                ),
    {
        proof {
            use_type_invariant(self);
        }
        let mut found: Vec<&R> = Vec::new();
        let mut i: usize = 0;
        while i < self.rows.len()
            invariant
                i <= self.rows@.len(),
                keys_unique(self.rows@),
                listed_so_far(found@, self.rows@.take(i as int), *filter, *order),
            decreases self.rows.len() - i,
        {
            let row = &self.rows[i];
            let ghost done = self.rows@.take(i as int);
            assert(self.rows@.take(i + 1) =~= done.push(*row));
            if filter.test(row) {
                let rank = order.rank_of(row);
                let mut at: usize = found.len();
                while at > 0 && rank_exceeds(order.rank_of(found[at - 1]), rank)
                    invariant
                        at <= found@.len(),
                        (rank.0 as int, rank.1 as int, rank.2 as int) == order.rank(
                            row.key(),
                            row.data(),
                        ),
                        forall|j: int|
                            at <= j < found@.len() ==> rank_le(
                                order.rank(row.key(), row.data()),
                                order.rank((#[trigger] found@[j]).key(), found@[j].data()),
                            ),
                    decreases at,
                {
                    at -= 1;
                }
                let ghost before = found@;
                found.insert(at, row);
                proof {
                    lemma_listed_insert(before, done, *row, at as int, *filter, *order);
                }
            } else {
                proof {
                    lemma_listed_skip(found@, done, *row, *filter, *order);
                }
            }
            i += 1;
        }
        proof {
            assert(self.rows@.take(i as int) =~= self.rows@);
            lemma_listed_all(found@, self.rows@, *filter, *order);
        }
        found
    }
}

/// The rows of a list that a filter accepts, each one once, in an order.
spec fn listed_so_far<R: Row, F: Filter<R>, O: Order<R>>(
    found: Seq<&R>,
    rows: Seq<R>,
    filter: F,
    order: O,
) -> bool {
    &&& forall|i: int|
        0 <= i < found.len() ==> rows.contains(*(#[trigger] found[i])) && filter.accepts(
            found[i].key(),
            found[i].data(),
        )
    &&& forall|i: int|
        0 <= i < rows.len() && filter.accepts((#[trigger] rows[i]).key(), rows[i].data())
            ==> found.contains(&rows[i])
    &&& forall|i: int, j: int|
        0 <= i < found.len() && 0 <= j < found.len() && i != j ==> (#[trigger] found[i]).key() != (
        #[trigger] found[j]).key()
    &&& forall|i: int, j: int|
        0 <= i < j < found.len() ==> rank_le(
            order.rank((#[trigger] found[i]).key(), found[i].data()),
            order.rank((#[trigger] found[j]).key(), found[j].data()),
        )
}

proof fn lemma_listed_skip<R: Row, F: Filter<R>, O: Order<R>>(
    found: Seq<&R>,
    rows: Seq<R>,
    row: R,
    filter: F,
    order: O,
)
    requires
        listed_so_far(found, rows, filter, order),
        !filter.accepts(row.key(), row.data()),
    ensures
        listed_so_far(found, rows.push(row), filter, order),
{
    let all = rows.push(row);
    assert forall|i: int| 0 <= i < found.len() implies all.contains(*(#[trigger] found[i])) by {
        let j = choose|j: int| 0 <= j < rows.len() && rows[j] == *found[i];
        assert(all[j] == *found[i]);
    }
    assert forall|i: int|
        0 <= i < all.len() && filter.accepts(
            (#[trigger] all[i]).key(),
            all[i].data(),
        ) implies found.contains(&all[i]) by {
        assert(all[i] == rows[i]);
    }
}

proof fn lemma_listed_insert<R: Row, F: Filter<R>, O: Order<R>>(
    found: Seq<&R>,
    rows: Seq<R>,
    row: R,
    at: int,
    filter: F,
    order: O,
)
    requires
        listed_so_far(found, rows, filter, order),
        keys_unique(rows.push(row)),
        filter.accepts(row.key(), row.data()),
        0 <= at <= found.len(),
        at > 0 ==> rank_le(
            order.rank(found[at - 1].key(), found[at - 1].data()),
            order.rank(row.key(), row.data()),
        ),
        forall|j: int|
            at <= j < found.len() ==> rank_le(
                order.rank(row.key(), row.data()),
                order.rank((#[trigger] found[j]).key(), found[j].data()),
            ),
    ensures
        listed_so_far(found.insert(at, &row), rows.push(row), filter, order),
{
    let all = rows.push(row);
    let more = found.insert(at, &row);
    let old_index = |i: int| if i < at { i } else { i - 1 };
    assert forall|i: int| 0 <= i < more.len() implies all.contains(*(#[trigger] more[i])) by {
        if i == at {
            assert(all[rows.len() as int] == row);
        } else {
            let o = old_index(i);
            assert(more[i] == found[o]);
            let j = choose|j: int| 0 <= j < rows.len() && rows[j] == *found[o];
            assert(all[j] == *found[o]);
        }
    }
    assert forall|i: int|
        0 <= i < all.len() && filter.accepts(
            (#[trigger] all[i]).key(),
            all[i].data(),
        ) implies more.contains(&all[i]) by {
        if i == rows.len() {
            assert(more[at] == &row);
        } else {
            assert(all[i] == rows[i]);
            let j = choose|j: int| 0 <= j < found.len() && found[j] == &rows[i];
            if j < at {
                assert(more[j] == found[j]);
            } else {
                assert(more[j + 1] == found[j]);
            }
        }
    }
    assert forall|j: int| 0 <= j < found.len() implies (#[trigger] found[j]).key() != row.key() by {
        let k = choose|k: int| 0 <= k < rows.len() && rows[k] == *found[j];
        assert(all[k] == rows[k]);
        assert(all[rows.len() as int] == row);
    }
    assert forall|i: int, j: int|
        0 <= i < more.len() && 0 <= j < more.len() && i != j implies (#[trigger] more[i]).key() != (
    #[trigger] more[j]).key() by {
        if i != at && j != at {
            assert(more[i] == found[old_index(i)]);
            assert(more[j] == found[old_index(j)]);
        } else if i != at {
            assert(more[i] == found[old_index(i)]);
        } else {
            assert(more[j] == found[old_index(j)]);
        }
    }
    assert forall|i: int, j: int| 0 <= i < j < more.len() implies rank_le(
        order.rank((#[trigger] more[i]).key(), more[i].data()),
        order.rank((#[trigger] more[j]).key(), more[j].data()),
    ) by {
        if i != at && j != at {
            assert(more[i] == found[old_index(i)]);
            assert(more[j] == found[old_index(j)]);
        } else if i != at {
            assert(more[i] == found[i]);
            assert(i <= at - 1);
            if i < at - 1 {
                assert(rank_le(
                    order.rank(found[i].key(), found[i].data()),
                    order.rank(found[at - 1].key(), found[at - 1].data()),
                ));
            }
        } else {
            assert(more[j] == found[j - 1]);
        }
    }
}

proof fn lemma_listed_all<R: Row, F: Filter<R>, O: Order<R>>(
    found: Seq<&R>,
    rows: Seq<R>,
    filter: F,
    order: O,
)
    requires
        keys_unique(rows),
        listed_so_far(found, rows, filter, order),
    ensures
        lists::<R, F, O>(keys_of(found), rows_by_key(rows), filter, order),
        forall|i: int|
            0 <= i < found.len() ==> rows_by_key(rows).contains_key((#[trigger] found[i]).key())
                && rows_by_key(rows)[found[i].key()] == found[i].data(),
{
    let keys = keys_of(found);
    let table = rows_by_key(rows);
    assert forall|i: int| 0 <= i < found.len() implies table.contains_key(
        (#[trigger] found[i]).key(),
    ) && table[found[i].key()] == found[i].data() by {
        let j = choose|j: int| 0 <= j < rows.len() && rows[j] == *found[i];
        lemma_row_found(rows, j);
    }
    assert forall|key: R::Key|
        keys.to_set().contains(key) == accepted::<R, F>(table, filter).contains(key) by {
        if keys.contains(key) {
            let i = choose|i: int| 0 <= i < keys.len() && keys[i] == key;
            assert(found[i].key() == key);
        }
        if accepted::<R, F>(table, filter).contains(key) {
            let j = choose|j: int| 0 <= j < rows.len() && (#[trigger] rows[j]).key() == key;
            lemma_row_found(rows, j);
            let i = choose|i: int| 0 <= i < found.len() && found[i] == &rows[j];
            assert(keys[i] == key);
        }
    }
    assert(keys.to_set() =~= accepted::<R, F>(table, filter));
}

} // verus!

//! A map from byte strings to values, held as a sorted vector and searched by
//! halving.

use vstd::prelude::*;

verus! {

// ---------------------------------------------------------------------------
// The order of byte strings
// ---------------------------------------------------------------------------

/// Whether one byte string comes before another: at the first difference it
/// has the smaller byte, or it ends where the other goes on.
pub open spec fn before(a: Seq<u8>, b: Seq<u8>) -> bool
    decreases a.len(),
{
    if b.len() == 0 {
        false
    } else if a.len() == 0 {
        true
    } else if a[0] != b[0] {
        a[0] < b[0]
    } else {
        before(a.skip(1), b.skip(1))
    }
}

/// No byte string comes before itself.
pub proof fn lemma_before_irreflexive(a: Seq<u8>)
    ensures
        !before(a, a),
    decreases a.len(),
{
    if a.len() > 0 {
        lemma_before_irreflexive(a.skip(1));
    }
}

/// What comes before something that comes before a third comes before it.
pub proof fn lemma_before_transitive(a: Seq<u8>, b: Seq<u8>, c: Seq<u8>)
    requires
        before(a, b),
        before(b, c),
    ensures
        before(a, c),
    decreases a.len(),
{
    if a.len() > 0 && a[0] == b[0] && b[0] == c[0] {
        lemma_before_transitive(a.skip(1), b.skip(1), c.skip(1));
    }
}

/// Of two byte strings one comes before the other, unless they are the same.
pub proof fn lemma_before_total(a: Seq<u8>, b: Seq<u8>)
    ensures
        before(a, b) || before(b, a) || a == b,
    decreases a.len(),
{
    if a.len() == 0 && b.len() == 0 {
        assert(a =~= b);
    } else if a.len() > 0 && b.len() > 0 && a[0] == b[0] {
        lemma_before_total(a.skip(1), b.skip(1));
        if a.skip(1) == b.skip(1) {
            assert(a =~= seq![a[0]] + a.skip(1));
            assert(b =~= seq![b[0]] + b.skip(1));
        }
    }
}

/// How two byte strings stand to each other.
#[derive(Debug, Clone, Copy, PartialEq, Eq, Structural)]
enum Side {
    Before,
    Same,
    After,
}

/// Where a byte string stands to another.
fn side(a: &[u8], b: &[u8]) -> (r: Side)
    ensures
        r == Side::Before <==> before(a@, b@),
        r == Side::Same <==> a@ == b@,
        r == Side::After <==> before(b@, a@),
{
    let mut i: usize = 0;
    assert(a@.skip(0) =~= a@);
    assert(b@.skip(0) =~= b@);
    proof {
        lemma_before_irreflexive(a@);
    }
    while i < a.len() && i < b.len() && a[i] == b[i]
        invariant
            i <= a@.len(),
            i <= b@.len(),
            forall|j: int| 0 <= j < i ==> a@[j] == b@[j],
            before(a@, b@) == before(a@.skip(i as int), b@.skip(i as int)),
            before(b@, a@) == before(b@.skip(i as int), a@.skip(i as int)),
            !before(a@, a@),
        decreases a@.len() - i,
    {
        assert(a@.skip(i as int).skip(1) =~= a@.skip(i + 1));
        assert(b@.skip(i as int).skip(1) =~= b@.skip(i + 1));
        i = i + 1;
    }
    if i == a.len() {
        if i == b.len() {
            assert(a@ =~= b@);
            Side::Same
        } else {
            Side::Before
        }
    } else if i == b.len() {
        Side::After
    } else if a[i] < b[i] {
        Side::Before
    } else {
        Side::After
    }
}

// ---------------------------------------------------------------------------
// The map
// ---------------------------------------------------------------------------

/// One row of the map.
#[derive(Debug)]
pub struct Row<V> {
    pub key: Vec<u8>,
    pub value: V,
}

/// A map from byte strings to values, in the order of the keys.
#[derive(Debug)]
pub struct ByteMap<V> {
    rows: Vec<Row<V>>,
}

/// Whether rows are in the order of their keys, each key once.
pub open spec fn ascending<V>(rows: Seq<Row<V>>) -> bool {
    forall|i: int, j: int| 0 <= i < j < rows.len() ==> before(#[trigger] rows[i].key@, #[trigger] rows[j].key@)
}

/// Whether a row has a key.
pub open spec fn holds<V>(rows: Seq<Row<V>>, key: Seq<u8>, i: int) -> bool {
    0 <= i < rows.len() && rows[i].key@ == key
}

/// The map that some rows make up.
pub open spec fn rows_map<V>(rows: Seq<Row<V>>) -> Map<Seq<u8>, V> {
    Map::new(
        |k: Seq<u8>| exists|i: int| holds(rows, k, i),
        |k: Seq<u8>| rows[choose|i: int| holds(rows, k, i)].value,
    )
}

/// In ascending rows a key stands once, so the map holds that row's value.
pub proof fn lemma_row_in_map<V>(rows: Seq<Row<V>>, i: int)
    requires
        ascending(rows),
        0 <= i < rows.len(),
    ensures
        rows_map(rows).dom().contains(rows[i].key@),
        rows_map(rows)[rows[i].key@] == rows[i].value,
{
    let key = rows[i].key@;
    assert(holds(rows, key, i));
    let j = choose|j: int| holds(rows, key, j);
    lemma_before_irreflexive(key);
    if j < i {
        assert(before(rows[j].key@, rows[i].key@));
    } else if i < j {
        assert(before(rows[i].key@, rows[j].key@));
    }
}

impl<V> View for ByteMap<V> {
    type V = Map<Seq<u8>, V>;

    closed spec fn view(&self) -> Map<Seq<u8>, V> {
        rows_map(self.rows@)
    }
}

impl<V> ByteMap<V> {
    #[verifier::type_invariant]
    spec fn sorted(self) -> bool {
        ascending(self.rows@)
    }

    /// The rows, in the order of the keys.
    pub closed spec fn row_seq(self) -> Seq<Row<V>> {
        self.rows@
    }

    /// A map without rows.
    pub fn new() -> (r: ByteMap<V>)
        ensures
            r@ == Map::<Seq<u8>, V>::empty(),
            r.row_seq() == Seq::<Row<V>>::empty(),
    {
        let r = ByteMap { rows: Vec::new() };
        assert(r@ =~= Map::<Seq<u8>, V>::empty());
        r
    }

    /// How many rows the map has. The rows are in the order of their keys,
    /// and the map is what they make up.
    pub fn len(&self) -> (r: usize)
        ensures
            r == self.row_seq().len(),
            ascending(self.row_seq()),
            self@ == rows_map(self.row_seq()),
    {
        proof {
            use_type_invariant(self);
        }
        self.rows.len()
    }

    /// A row, by its place in the order.
    pub fn row(&self, i: usize) -> (r: &Row<V>)
        requires
            i < self.row_seq().len(),
        ensures
            *r == self.row_seq()[i as int],
    {
        &self.rows[i]
    }

    /// The place of a key, or the place where it would go.
    fn place(rows: &Vec<Row<V>>, key: &[u8]) -> (r: Result<usize, usize>)
        requires
            ascending(rows@),
        ensures
            (match r {
                Ok(i) => i < rows@.len() && rows@[i as int].key@ == key@,
                Err(i) => {
                    &&& i <= rows@.len()
                    &&& forall|j: int| 0 <= j < i ==> before(#[trigger] rows@[j].key@, key@)
                    &&& forall|j: int| i <= j < rows@.len() ==> before(key@, #[trigger] rows@[j].key@)
                },
            }),
    {
        let mut lo: usize = 0;
        let mut hi: usize = rows.len();
        while lo < hi
            invariant
                lo <= hi <= rows@.len(),
                ascending(rows@),
                forall|j: int| 0 <= j < lo ==> before(#[trigger] rows@[j].key@, key@),
                forall|j: int| hi <= j < rows@.len() ==> before(key@, #[trigger] rows@[j].key@),
            decreases hi - lo,
        {
            let mid: usize = lo + (hi - lo) / 2;
            let s = side(rows[mid].key.as_slice(), key);
            if s == Side::Same {
                return Ok(mid);
            } else if s == Side::Before {
                proof {
                    assert forall|j: int| 0 <= j < mid + 1 implies before(
                        #[trigger] rows@[j].key@,
                        key@,
                    ) by {
                        if j < mid {
                            lemma_before_transitive(rows@[j].key@, rows@[mid as int].key@, key@);
                        }
                    }
                }
                lo = mid + 1;
            } else {
                proof {
                    assert forall|j: int| mid <= j < rows@.len() implies before(
                        key@,
                        #[trigger] rows@[j].key@,
                    ) by {
                        if j > mid {
                            lemma_before_transitive(key@, rows@[mid as int].key@, rows@[j].key@);
                        }
                    }
                }
                hi = mid;
            }
        }
        Err(lo)
    }

    /// The value under a key.
    pub fn get(&self, key: &[u8]) -> (r: Option<&V>)
        ensures
            (match r {
                Some(v) => self@.dom().contains(key@) && *v == self@[key@],
                None => !self@.dom().contains(key@),
            }),
    {
        proof {
            use_type_invariant(self);
        }
        match Self::place(&self.rows, key) {
            Ok(i) => {
                proof {
                    lemma_row_in_map(self.rows@, i as int);
                }
                Some(&self.rows[i].value)
            },
            Err(i) => {
                proof {
                    lemma_before_irreflexive(key@);
                    assert forall|j: int| !holds(self.rows@, key@, j) by {
                        if 0 <= j < self.rows@.len() {
                            if j < i {
                                assert(before(self.rows@[j].key@, key@));
                            } else {
                                assert(before(key@, self.rows@[j].key@));
                            }
                        }
                    }
                }
                None
            },
        }
    }

    /// Put a value under a key, in place of the one that was there.
    pub fn insert(&mut self, key: Vec<u8>, value: V)
        ensures
            final(self)@ == old(self)@.insert(key@, value),
    {
        proof {
            use_type_invariant(&*self);
        }
        let ghost k = key@;
        let ghost start = self.rows@;
        let mut rows: Vec<Row<V>> = Vec::new();
        std::mem::swap(&mut rows, &mut self.rows);
        match Self::place(&rows, key.as_slice()) {
            Ok(i) => {
                let mut tail = rows.split_off(i);
                let _old = tail.remove(0);
                rows.push(Row { key, value });
                rows.append(&mut tail);
                proof {
                    assert(rows@ =~= start.update(i as int, Row { key, value }));
                    lemma_replaced(start, i as int, Row { key, value });
                }
            },
            Err(i) => {
                rows.insert(i, Row { key, value });
                proof {
                    lemma_inserted(start, i as int, Row { key, value });
                }
            },
        }
        self.rows = rows;
    }
}

proof fn lemma_replaced<V>(rows: Seq<Row<V>>, i: int, row: Row<V>)
    requires
        ascending(rows),
        0 <= i < rows.len(),
        rows[i].key@ == row.key@,
    ensures
        ascending(rows.update(i, row)),
        rows_map(rows.update(i, row)) == rows_map(rows).insert(row.key@, row.value),
{
    let new = rows.update(i, row);
    assert(ascending(new)) by {
        assert forall|a: int, b: int| 0 <= a < b < new.len() implies before(
            #[trigger] new[a].key@,
            #[trigger] new[b].key@,
        ) by {
            assert(before(rows[a].key@, rows[b].key@));
        }
    }
    let m = rows_map(rows).insert(row.key@, row.value);
    assert forall|k: Seq<u8>| rows_map(new).dom().contains(k) <==> m.dom().contains(k) by {
        if exists|j: int| holds(new, k, j) {
            let j = choose|j: int| holds(new, k, j);
            assert(holds(rows, k, j));
        }
        if exists|j: int| holds(rows, k, j) {
            let j = choose|j: int| holds(rows, k, j);
            assert(holds(new, k, j));
        }
        assert(holds(new, row.key@, i));
    }
    assert forall|k: Seq<u8>| rows_map(new).dom().contains(k) implies rows_map(new)[k] == m[k] by {
        let j = choose|j: int| holds(new, k, j);
        lemma_row_in_map(new, j);
        lemma_row_in_map(new, i);
        if k != row.key@ {
            lemma_row_in_map(rows, j);
        }
    }
    assert(rows_map(new) =~= m);
}

proof fn lemma_inserted<V>(rows: Seq<Row<V>>, i: int, row: Row<V>)
    requires
        ascending(rows),
        0 <= i <= rows.len(),
        forall|j: int| 0 <= j < i ==> before(#[trigger] rows[j].key@, row.key@),
        forall|j: int| i <= j < rows.len() ==> before(row.key@, #[trigger] rows[j].key@),
    ensures
        ascending(rows.insert(i, row)),
        rows_map(rows.insert(i, row)) == rows_map(rows).insert(row.key@, row.value),
{
    let new = rows.insert(i, row);
    assert(ascending(new)) by {
        assert forall|a: int, b: int| 0 <= a < b < new.len() implies before(
            #[trigger] new[a].key@,
            #[trigger] new[b].key@,
        ) by {
            let ra = if a < i {
                a
            } else {
                a - 1
            };
            let rb = if b < i {
                b
            } else {
                b - 1
            };
            if a != i && b != i {
                assert(before(rows[ra].key@, rows[rb].key@));
            } else if a == i {
                assert(before(row.key@, rows[rb].key@));
            } else {
                assert(before(rows[ra].key@, row.key@));
            }
        }
    }
    let m = rows_map(rows).insert(row.key@, row.value);
    assert(new[i] == row);
    assert(holds(new, row.key@, i));
    assert forall|k: Seq<u8>| rows_map(new).dom().contains(k) <==> m.dom().contains(k) by {
        if exists|j: int| holds(new, k, j) {
            let j = choose|j: int| holds(new, k, j);
            if j < i {
                assert(holds(rows, k, j));
            } else if j > i {
                assert(holds(rows, k, j - 1));
            }
        }
        if exists|j: int| holds(rows, k, j) {
            let j = choose|j: int| holds(rows, k, j);
            if j < i {
                assert(new[j] == rows[j]);
                assert(holds(new, k, j));
            } else {
                assert(new[j + 1] == rows[j]);
                assert(holds(new, k, j + 1));
            }
        }
    }
    assert forall|k: Seq<u8>| rows_map(new).dom().contains(k) implies rows_map(new)[k] == m[k] by {
        let j = choose|j: int| holds(new, k, j);
        lemma_row_in_map(new, j);
        lemma_row_in_map(new, i);
        if k != row.key@ {
            if j < i {
                lemma_row_in_map(rows, j);
            } else {
                lemma_row_in_map(rows, j - 1);
            }
        }
    }
    assert(rows_map(new) =~= m);
}

} // verus!

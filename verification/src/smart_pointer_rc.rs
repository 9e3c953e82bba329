//! Shared ownership with a strong count: several owners of one value
//! that is expensive to clone, each observing the same storage, with the
//! count rising and falling as handles are minted and given back.

use vstd::prelude::*;
use vstd::string::*;
use crate::shared_cell::Handle;
use crate::shared_cell::SharedMutableCell;

verus! {

/// A cons list whose tail lives on the heap.
enum List {
    Cons(i32, Box<List>),
    Nil,
}

/// A shared list head: one handle per owner of the common tail, the
/// count visible at every step, and the value released with the last
/// handle.  Every assertion is checked statically.
pub fn test_rc() {
    let tail = List::Cons(5, Box::new(List::Cons(10, Box::new(List::Nil))));
    let (mut cell, a) = SharedMutableCell::create(tail);
    let c: usize = cell.strong_count();
    assert(c == 1);

    let b: (i32, Handle) = (3, cell.clone_handle(&a));
    let c: usize = cell.strong_count();
    assert(c == 2);

    {
        let inner: (i32, Handle) = (4, cell.clone_handle(&a));
        let c: usize = cell.strong_count();
        assert(c == 3);
        cell.drop_handle(inner.1);
    }
    let c: usize = cell.strong_count();
    assert(c == 2);

    cell.drop_handle(b.1);
    cell.drop_handle(a);
    let c: usize = cell.strong_count();
    assert(c == 0);
}

/// First-match lookup in a sequence of key-value pairs; a missing key
/// falls back to the default value zero.
pub open spec fn lookup(entries: Seq<(Seq<char>, i32)>, key: Seq<char>) -> i32
    decreases entries.len(),
{
    if entries.len() == 0 {
        0
    } else if entries[0].0 == key {
        entries[0].1
    } else {
        lookup(entries.subrange(1, entries.len() as int), key)
    }
}

/// The first match decides: when every entry before position `i` misses
/// the key and the entry at `i` carries it, the lookup returns that
/// entry's value.
pub proof fn lemma_lookup_found(entries: Seq<(Seq<char>, i32)>, key: Seq<char>, i: int)
    requires
        0 <= i < entries.len(),
        forall|j: int| 0 <= j < i ==> entries[j].0 != key,
        entries[i].0 == key,
    ensures
        lookup(entries, key) == entries[i].1,
    decreases i,
{
    if i > 0 {
        let sub = entries.subrange(1, entries.len() as int);
        assert(forall|j: int| 0 <= j < i - 1 ==> sub[j] == entries[j + 1]);
        assert(sub[i - 1] == entries[i]);
        lemma_lookup_found(sub, key, i - 1);
    }
}

/// The table a fresh [`Db`] holds.
pub open spec fn initial_db_entries() -> Seq<(Seq<char>, i32)> {
    seq![
        ("tony stark"@, 1i32),
        ("steve rogers"@, 2i32),
        ("natasha romanoff"@, 3i32),
        ("bruce banner"@, 4i32),
        ("bart clinton"@, 5i32),
        ("thor"@, 6i32),
    ]
}

/// A lookup table that is expensive to clone, so its owners share one
/// copy instead.
pub struct Db {
    data: Vec<(String, i32)>,
}

impl Db {
    /// The table as a sequence of key-value pairs, keys viewed as
    /// character sequences.
    pub closed spec fn model(self) -> Seq<(Seq<char>, i32)> {
        self.data@.map_values(|p: (String, i32)| (p.0@, p.1))
    }

    /// Builds the avenger table.
    pub fn new() -> (r: Self)
        ensures
            r.model() == initial_db_entries(),
    {
        let mut data: Vec<(String, i32)> = Vec::new();
        data.push((String::from_str("tony stark"), 1));
        data.push((String::from_str("steve rogers"), 2));
        data.push((String::from_str("natasha romanoff"), 3));
        data.push((String::from_str("bruce banner"), 4));
        data.push((String::from_str("bart clinton"), 5));
        data.push((String::from_str("thor"), 6));
        let db = Db { data };
        proof {
            assert(db.model() =~= initial_db_entries());
        }
        db
    }

    /// Returns the value stored under `key`, or zero when the key is
    /// absent.
    pub fn get(&self, key: &str) -> (r: i32)
        ensures
            r == lookup(self.model(), key@),
    {
        let key_owned: String = key.to_owned();
        let n: usize = self.data.len();
        proof {
            assert(self.model().subrange(0, n as int) =~= self.model());
        }
        let mut i: usize = 0;
        while i < n
            invariant
                n == self.data.len(),
                n == self.model().len(),
                i <= n,
                key_owned@ == key@,
                lookup(self.model(), key@) == lookup(
                    self.model().subrange(i as int, n as int),
                    key@,
                ),
            decreases n - i,
        {
            let ghost sub = self.model().subrange(i as int, n as int);
            if self.data[i].0 == key_owned {
                proof {
                    assert(sub[0] == self.model()[i as int]);
                    assert(lookup(sub, key@) == sub[0].1);
                }
                return self.data[i].1;
            }
            proof {
                assert(sub[0] == self.model()[i as int]);
                assert(sub.subrange(1, sub.len() as int) =~= self.model().subrange(
                    i + 1,
                    n as int,
                ));
            }
            i = i + 1;
        }
        proof {
            assert(self.model().subrange(n as int, n as int) =~= Seq::<
                (Seq<char>, i32),
            >::empty());
        }
        0
    }
}

/// Reads the strongest avenger from the shared table, then lets its
/// handle go, returning the count to what the caller held before the
/// call.
pub fn strongest_avenger(cell: &mut SharedMutableCell<Db>, data: Handle) -> (r: i32)
    requires
        old(cell).wf(),
        old(cell).strong() == 3,
        old(cell).borrow_state() is Idle,
        old(cell).value_spec() matches Some(db) && db.model() == initial_db_entries(),
    ensures
        final(cell).wf(),
        final(cell).strong() == 2,
        final(cell).borrow_state() is Idle,
        final(cell).value_spec() == old(cell).value_spec(),
        r == 6,
{
    let c: usize = cell.strong_count();
    assert(c == 3);
    let g = cell.read(&data).unwrap();
    let db = cell.read_value(&g);
    let r = db.get("thor");
    proof {
        reveal_strlit("tony stark");
        reveal_strlit("steve rogers");
        reveal_strlit("natasha romanoff");
        reveal_strlit("bruce banner");
        reveal_strlit("bart clinton");
        reveal_strlit("thor");
        let e = initial_db_entries();
        let k = "thor"@;
        assert("tony stark"@.len() == 10);
        assert("steve rogers"@.len() == 12);
        assert("natasha romanoff"@.len() == 16);
        assert("bruce banner"@.len() == 12);
        assert("bart clinton"@.len() == 12);
        assert(k.len() == 4);
        assert(e[0].0 != k);
        assert(e[1].0 != k);
        assert(e[2].0 != k);
        assert(e[3].0 != k);
        assert(e[4].0 != k);
        assert(forall|j: int| 0 <= j < 5 ==> e[j].0 != k);
        lemma_lookup_found(e, k, 5);
    }
    cell.release_read(g);
    cell.drop_handle(data);
    r
}

/// Reads the best avenger from the shared table, then lets its handle
/// go, returning the count to what the caller held before the call.
pub fn best_avenger(cell: &mut SharedMutableCell<Db>, data: Handle) -> (r: i32)
    requires
        old(cell).wf(),
        old(cell).strong() == 3,
        old(cell).borrow_state() is Idle,
        old(cell).value_spec() matches Some(db) && db.model() == initial_db_entries(),
    ensures
        final(cell).wf(),
        final(cell).strong() == 2,
        final(cell).borrow_state() is Idle,
        final(cell).value_spec() == old(cell).value_spec(),
        r == 1,
{
    let c: usize = cell.strong_count();
    assert(c == 3);
    let g = cell.read(&data).unwrap();
    let db = cell.read_value(&g);
    let r = db.get("tony stark");
    proof {
        lemma_lookup_found(initial_db_entries(), "tony stark"@, 0);
    }
    cell.release_read(g);
    cell.drop_handle(data);
    r
}

/// Two read paths over one shared table: each path gets its own handle,
/// reads a different key without mutating, and gives its handle back,
/// so the count afterwards equals the count before.
pub fn multiple_dbs() {
    let (mut cell, db) = SharedMutableCell::create(Db::new());
    let c: usize = cell.strong_count();
    assert(c == 1);

    let clone_b = cell.clone_handle(&db);
    let c: usize = cell.strong_count();
    assert(c == 2);

    let arg = cell.clone_handle(&db);
    let strongest = strongest_avenger(&mut cell, arg);
    let c: usize = cell.strong_count();
    assert(c == 2);

    let arg = cell.clone_handle(&db);
    let best = best_avenger(&mut cell, arg);
    let c: usize = cell.strong_count();
    assert(c == 2);

    assert(strongest == 6);
    assert(best == 1);

    cell.drop_handle(clone_b);
    cell.drop_handle(db);
}

} // verus!

//! In-memory [`PositionStore`].

use vstd::prelude::*;

use crate::error::PortError;
use crate::ids::{str_eq, Symbol};
use crate::ports::{lists_market, PositionStore};
use crate::position::{Position, PositionKey};

verus! {

/// An in-memory position store: one entry per `(account, symbol)`, kept in
/// insertion order.
pub struct MemoryPositionStore {
    positions: Vec<Position>,
    book: Ghost<Map<PositionKey, Position>>,
    ranks: Ghost<Map<PositionKey, nat>>,
    next_rank: Ghost<nat>,
}

impl MemoryPositionStore {
    /// The stored positions in their order.
    pub closed spec fn entries(&self) -> Seq<Position> {
        self.positions@
    }

    /// Create an empty store.
    pub fn new() -> (r: Self)
        ensures
            r.inv(),
            r.book() == Map::<PositionKey, Position>::empty(),
            r.entries() == Seq::<Position>::empty(),
            r.ranks() == Some(Map::<PositionKey, nat>::empty()),
    {
        MemoryPositionStore {
            positions: Vec::new(),
            book: Ghost(Map::empty()),
            ranks: Ghost(Map::empty()),
            next_rank: Ghost(0),
        }
    }

    /// Index of the entry stored under `(account, symbol)`.
    fn find(&self, account: &str, symbol: &Symbol) -> (r: Option<usize>)
        requires
            self.inv(),
        ensures
            match r {
                Some(i) => i < self.positions@.len() && self.positions@[i as int].key() == (
                    account@,
                    symbol@,
                ),
                None => !self.book@.dom().contains((account@, symbol@)),
            },
    {
        let n = self.positions.len();
        let mut i: usize = 0;
        while i < n
            invariant
                n == self.positions@.len(),
                i <= n,
                self.inv(),
                forall|j: int| 0 <= j < i ==> (#[trigger] self.positions@[j]).key() != (
                    account@,
                    symbol@,
                ),
            decreases n - i,
        {
            let p = &self.positions[i];
            if str_eq(p.account.as_str(), account) && p.symbol.same(symbol) {
                return Some(i);
            }
            i = i + 1;
        }
        None
    }
}

impl PositionStore for MemoryPositionStore {
    closed spec fn inv(&self) -> bool {
        &&& forall|i: int|
            0 <= i < self.positions@.len() ==> self.book@.dom().contains(
                (#[trigger] self.positions@[i]).key(),
            ) && self.book@[self.positions@[i].key()] == self.positions@[i]
        &&& forall|k: PositionKey| #[trigger]
            self.book@.dom().contains(k) ==> exists|i: int|
                0 <= i < self.positions@.len() && (#[trigger] self.positions@[i]).key() == k
        &&& forall|i: int, j: int|
            0 <= i < j < self.positions@.len() ==> (#[trigger] self.positions@[i]).key() != (
            #[trigger] self.positions@[j]).key()
        &&& self.book@.dom().finite()
        &&& self.book@.len() == self.positions@.len()
        &&& self.ranks@.dom() == self.book@.dom()
        &&& forall|k: PositionKey| #[trigger] self.ranks@.dom().contains(k) ==> self.ranks@[k] < self.next_rank@
        &&& forall|a: int, b: int|
            0 <= a < b < self.positions@.len() ==> self.ranks@[(#[trigger] self.positions@[a]).key()]
                < self.ranks@[(#[trigger] self.positions@[b]).key()]
    }

    closed spec fn book(&self) -> Map<PositionKey, Position> {
        self.book@
    }

    closed spec fn ranks(&self) -> Option<Map<PositionKey, nat>> {
        Some(self.ranks@)
    }

    open spec fn reliable(&self) -> bool {
        true
    }

    fn upsert(&mut self, position: Position) -> (r: Result<(), PortError>)
        ensures
            r is Ok,
    {
        let ghost key = position.key();
        match self.find(position.account.as_str(), &position.symbol) {
            Some(i) => {
                let ghost old_positions = self.positions@;
                self.positions.set(i, position);
                self.book = Ghost(self.book@.insert(key, position));
                proof {
                    assert(self.book@.dom() =~= old(self).book@.dom());
                    assert forall|k: PositionKey| #[trigger]
                        self.book@.dom().contains(k) implies exists|j: int|
                        0 <= j < self.positions@.len() && (#[trigger] self.positions@[j]).key()
                            == k by {
                        let j = choose|j: int|
                            0 <= j < old_positions.len() && (#[trigger] old_positions[j]).key()
                                == k;
                        assert(self.positions@[j].key() == k);
                    }
                }
            },
            None => {
                let ghost old_positions = self.positions@;
                self.positions.push(position);
                self.book = Ghost(self.book@.insert(key, position));
                self.ranks = Ghost(self.ranks@.insert(key, self.next_rank@));
                self.next_rank = Ghost(self.next_rank@ + 1);
                proof {
                    let n = old_positions.len() as int;
                    assert(self.positions@[n] == position);
                    assert forall|k: PositionKey| #[trigger]
                        self.book@.dom().contains(k) implies exists|j: int|
                        0 <= j < self.positions@.len() && (#[trigger] self.positions@[j]).key()
                            == k by {
                        if k == key {
                            assert(self.positions@[n].key() == k);
                        } else {
                            let j = choose|j: int|
                                0 <= j < old_positions.len() && (#[trigger] old_positions[j]).key()
                                    == k;
                            assert(self.positions@[j].key() == k);
                        }
                    }
                    assert forall|i: int|
                        0 <= i < self.positions@.len() implies self.book@.dom().contains(
                        (#[trigger] self.positions@[i]).key(),
                    ) && self.book@[self.positions@[i].key()] == self.positions@[i] by {
                        if i < n {
                            assert(old_positions[i] == self.positions@[i]);
                            assert(old(self).book@.dom().contains(old_positions[i].key()));
                        }
                    }
                }
            },
        }
        Ok(())
    }

    fn get(&self, account: &str, symbol: &Symbol) -> (r: Result<Option<Position>, PortError>)
        ensures
            r is Ok,
    {
        match self.find(account, symbol) {
            Some(i) => Ok(Some(self.positions[i].clone())),
            None => Ok(None),
        }
    }

    fn remove(&mut self, account: &str, symbol: &Symbol) -> (r: Result<Option<Position>, PortError>)
        ensures
            r is Ok,
    {
        let ghost key: PositionKey = (account@, symbol@);
        match self.find(account, symbol) {
            Some(i) => {
                let ghost old_positions = self.positions@;
                let p = self.positions.remove(i);
                self.book = Ghost(self.book@.remove(key));
                self.ranks = Ghost(self.ranks@.remove(key));
                proof {
                    assert(old(self).book@.dom().contains(key));
                    assert(self.ranks@.dom() =~= self.book@.dom());
                    assert forall|a: int, b: int|
                        0 <= a < b < self.positions@.len() implies self.ranks@[(
                        #[trigger] self.positions@[a]).key()] < self.ranks@[(
                        #[trigger] self.positions@[b]).key()] by {
                        let a0 = if a < i {
                            a
                        } else {
                            a + 1
                        };
                        let b0 = if b < i {
                            b
                        } else {
                            b + 1
                        };
                        assert(self.positions@[a] == old_positions[a0]);
                        assert(self.positions@[b] == old_positions[b0]);
                        assert(old_positions[a0].key() != old_positions[i as int].key());
                        assert(old_positions[b0].key() != old_positions[i as int].key());
                    }
                    assert forall|k: PositionKey| #[trigger]
                        self.book@.dom().contains(k) implies exists|j: int|
                        0 <= j < self.positions@.len() && (#[trigger] self.positions@[j]).key()
                            == k by {
                        let j = choose|j: int|
                            0 <= j < old_positions.len() && (#[trigger] old_positions[j]).key()
                                == k;
                        if j < i {
                            assert(self.positions@[j] == old_positions[j]);
                        } else {
                            assert(j != i);
                            assert(self.positions@[j - 1] == old_positions[j]);
                        }
                    }
                    assert forall|a: int, b: int|
                        0 <= a < b < self.positions@.len() implies (#[trigger] self.positions@[a]).key()
                        != (#[trigger] self.positions@[b]).key() by {
                        let a0 = if a < i {
                            a
                        } else {
                            a + 1
                        };
                        let b0 = if b < i {
                            b
                        } else {
                            b + 1
                        };
                        assert(self.positions@[a] == old_positions[a0]);
                        assert(self.positions@[b] == old_positions[b0]);
                    }
                    assert forall|j: int|
                        0 <= j < self.positions@.len() implies self.book@.dom().contains(
                        (#[trigger] self.positions@[j]).key(),
                    ) && self.book@[self.positions@[j].key()] == self.positions@[j] by {
                        let j0 = if j < i {
                            j
                        } else {
                            j + 1
                        };
                        assert(self.positions@[j] == old_positions[j0]);
                        assert(j0 != i);
                        assert(old_positions[j0].key() != old_positions[i as int].key());
                    }
                }
                Ok(Some(p))
            },
            None => Ok(None),
        }
    }

    fn by_market(&self, symbol: &Symbol) -> (r: Result<Vec<Position>, PortError>)
        ensures
            r is Ok,
    {
        let n = self.positions.len();
        let mut out: Vec<Position> = Vec::new();
        let ghost mut idxs: Seq<int> = Seq::empty();
        let mut i: usize = 0;
        while i < n
            invariant
                n == self.positions@.len(),
                i <= n,
                self.inv(),
                out@.len() == idxs.len(),
                out@.len() <= i,
                forall|t: int|
                    0 <= t < idxs.len() ==> 0 <= #[trigger] idxs[t] < i && out@[t]
                        == self.positions@[idxs[t]] && out@[t].symbol@ == symbol@,
                forall|a: int, b: int| 0 <= a < b < idxs.len() ==> #[trigger] idxs[a] < #[trigger] idxs[b],
                forall|j: int|
                    0 <= j < i && (#[trigger] self.positions@[j]).symbol@ == symbol@ ==> exists|t: int|
                        0 <= t < idxs.len() && idxs[t] == j,
            decreases n - i,
        {
            let p = &self.positions[i];
            if p.symbol.same(symbol) {
                let ghost before = idxs;
                out.push(p.clone());
                proof {
                    idxs = idxs.push(i as int);
                    assert forall|j: int|
                        0 <= j < i + 1 && (#[trigger] self.positions@[j]).symbol@ == symbol@ implies exists|t: int|
                        0 <= t < idxs.len() && idxs[t] == j by {
                        if j == i {
                            assert(idxs[idxs.len() - 1] == j);
                        } else {
                            let t = choose|t: int| 0 <= t < before.len() && before[t] == j;
                            assert(idxs[t] == j);
                        }
                    }
                }
            }
            i = i + 1;
        }
        proof {
            let v = out@;
            let book = self.book@;
            assert forall|k: PositionKey| #[trigger]
                book.dom().contains(k) && k.1 == symbol@ implies exists|t: int|
                0 <= t < v.len() && (#[trigger] v[t]).key() == k by {
                let j = choose|j: int|
                    0 <= j < self.positions@.len() && (#[trigger] self.positions@[j]).key() == k;
                let t = choose|t: int| 0 <= t < idxs.len() && idxs[t] == j;
                assert(v[t].key() == k);
            }
            assert forall|a: int, b: int|
                0 <= a < b < v.len() implies (#[trigger] v[a]).key() != (#[trigger] v[b]).key() by {
                assert(idxs[a] < idxs[b]);
                assert(self.positions@[idxs[a]].key() != self.positions@[idxs[b]].key());
            }
            assert forall|t: int|
                0 <= t < v.len() implies (#[trigger] v[t]).symbol@ == symbol@
                && book.dom().contains(v[t].key()) && book[v[t].key()] == v[t] by {
                let j = idxs[t];
                assert(v[t] == self.positions@[j]);
            }
            assert(lists_market(v, book, symbol@));
            assert forall|a: int, b: int| 0 <= a < b < v.len() implies self.ranks@[(#[trigger] v[a]).key()]
                < self.ranks@[(#[trigger] v[b]).key()] by {
                assert(idxs[a] < idxs[b]);
                assert(v[a] == self.positions@[idxs[a]]);
                assert(v[b] == self.positions@[idxs[b]]);
            }
        }
        Ok(out)
    }

    fn count(&self) -> (r: Result<u64, PortError>)
        ensures
            r is Ok,
    {
        Ok(self.positions.len() as u64)
    }
}

} // verus!

//! Outbound ports (hexagonal boundaries) the engine depends on.
//!
//! A position store is modelled by its `book`: a map from `(account, symbol)`
//! to the stored position, and, for a store that keeps its positions in an
//! order, by their ranks in it. Every implementation promises the effect of
//! each operation on these, which is what the engine's contracts are stated
//! in.

use vstd::prelude::*;
use vstd::set_lib::lemma_len_subset;

use crate::error::PortError;
use crate::event::RiskEvent;
use crate::ids::Symbol;
use crate::position::{Position, PositionKey};

verus! {

/// Every stored position sits under its own key.
pub open spec fn keys_consistent(book: Map<PositionKey, Position>) -> bool {
    forall|k: PositionKey| #[trigger] book.dom().contains(k) ==> book[k].key() == k
}

/// `v` lists, once each, exactly the positions of `book` in market `sym`.
pub open spec fn lists_market(v: Seq<Position>, book: Map<PositionKey, Position>, sym: Seq<char>) -> bool {
    &&& forall|i: int|
        0 <= i < v.len() ==> (#[trigger] v[i]).symbol@ == sym && book.dom().contains(v[i].key())
            && book[v[i].key()] == v[i]
    &&& forall|k: PositionKey|
        #[trigger] book.dom().contains(k) && k.1 == sym ==> exists|i: int|
            0 <= i < v.len() && (#[trigger] v[i]).key() == k
    &&& forall|i: int, j: int| 0 <= i < j < v.len() ==> (#[trigger] v[i]).key() != (#[trigger] v[j]).key()
}

/// A market listing never holds more positions than the whole book.
pub proof fn lemma_listing_len(v: Seq<Position>, book: Map<PositionKey, Position>, sym: Seq<char>)
    requires
        lists_market(v, book, sym),
        book.dom().finite(),
    ensures
        v.len() <= book.len(),
{
    let keys = v.map_values(|p: Position| p.key());
    assert(keys.no_duplicates()) by {
        assert forall|i: int, j: int| 0 <= i < keys.len() && 0 <= j < keys.len() && i != j implies keys[i]
            != keys[j] by {
            if i < j {
                assert(v[i].key() != v[j].key());
            } else {
                assert(v[j].key() != v[i].key());
            }
        }
    }
    keys.unique_seq_to_set();
    assert(keys.to_set().subset_of(book.dom())) by {
        assert forall|k: PositionKey| keys.to_set().contains(k) implies book.dom().contains(k) by {
            let i = choose|i: int| 0 <= i < keys.len() && keys[i] == k;
            assert(v[i].key() == k);
        }
    }
    lemma_len_subset(keys.to_set(), book.dom());
}

/// A listing of a market that holds the whole book is as long as the book.
pub proof fn lemma_listing_len_exact(v: Seq<Position>, book: Map<PositionKey, Position>, sym: Seq<char>)
    requires
        lists_market(v, book, sym),
        book.dom().finite(),
        forall|k: PositionKey| #[trigger] book.dom().contains(k) ==> k.1 == sym,
    ensures
        v.len() == book.len(),
{
    let keys = v.map_values(|p: Position| p.key());
    assert(keys.no_duplicates()) by {
        assert forall|i: int, j: int| 0 <= i < keys.len() && 0 <= j < keys.len() && i != j implies keys[i]
            != keys[j] by {
            if i < j {
                assert(v[i].key() != v[j].key());
            } else {
                assert(v[j].key() != v[i].key());
            }
        }
    }
    keys.unique_seq_to_set();
    assert(keys.to_set() =~= book.dom()) by {
        assert forall|k: PositionKey| keys.to_set().contains(k) <==> book.dom().contains(k) by {
            if keys.to_set().contains(k) {
                let i = choose|i: int| 0 <= i < keys.len() && keys[i] == k;
                assert(v[i].key() == k);
            }
            if book.dom().contains(k) {
                let i = choose|i: int| 0 <= i < v.len() && (#[trigger] v[i]).key() == k;
                assert(keys[i] == k);
            }
        }
    }
}

/// `after` is `before` with `key` ranked behind every position ranked
/// before (both `None` where the store keeps no order).
pub open spec fn ranked_after(
    before: Option<Map<PositionKey, nat>>,
    after: Option<Map<PositionKey, nat>>,
    key: PositionKey,
) -> bool {
    match before {
        Some(m) => after matches Some(m2) && m2.dom().contains(key) && m2 == m.insert(key, m2[key])
            && forall|k: PositionKey| #[trigger] m.dom().contains(k) ==> m[k] < m2[key],
        None => after is None,
    }
}

/// The ranks without `key`.
pub open spec fn unranked(ranks: Option<Map<PositionKey, nat>>, key: PositionKey) -> Option<
    Map<PositionKey, nat>,
> {
    match ranks {
        Some(m) => Some(m.remove(key)),
        None => None,
    }
}

/// The positions `v` come in rank order, where the store keeps one.
pub open spec fn in_rank_order(v: Seq<Position>, ranks: Option<Map<PositionKey, nat>>) -> bool {
    ranks matches Some(m) ==> forall|a: int, b: int|
        0 <= a < b < v.len() ==> m[(#[trigger] v[a]).key()] < m[(#[trigger] v[b]).key()]
}

/// Persists and retrieves positions.
pub trait PositionStore {
    /// The store's well-formedness, kept by every operation.
    spec fn inv(&self) -> bool;

    /// The stored positions by `(account, symbol)`.
    spec fn book(&self) -> Map<PositionKey, Position>;

    /// The rank of each stored position in the order the store keeps them
    /// in, for a store that keeps one; `None` for a store that leaves the
    /// order open.
    spec fn ranks(&self) -> Option<Map<PositionKey, nat>>;

    /// Whether every operation on the store succeeds (an in-memory store);
    /// a store whose operations can fail, such as one over a network, is
    /// not reliable.
    spec fn reliable(&self) -> bool;

    /// Insert or replace a position.
    fn upsert(&mut self, position: Position) -> (r: Result<(), PortError>)
        requires
            old(self).inv(),
        ensures
            final(self).inv(),
            final(self).reliable() == old(self).reliable(),
            old(self).reliable() ==> r is Ok,
            r is Ok ==> final(self).book() == old(self).book().insert(position.key(), position),
            r is Err ==> final(self).book() == old(self).book(),
            r is Err || old(self).book().dom().contains(position.key()) ==> final(self).ranks() == old(
                self,
            ).ranks(),
            r is Ok && !old(self).book().dom().contains(position.key()) ==> ranked_after(
                old(self).ranks(),
                final(self).ranks(),
                position.key(),
            ),
    ;

    /// Fetch a single position by account and market.
    fn get(&self, account: &str, symbol: &Symbol) -> (r: Result<Option<Position>, PortError>)
        requires
            self.inv(),
        ensures
            self.reliable() ==> r is Ok,
            r matches Ok(o) ==> match o {
                Some(p) => self.book().dom().contains((account@, symbol@)) && self.book()[(
                    account@,
                    symbol@,
                )] == p,
                None => !self.book().dom().contains((account@, symbol@)),
            },
    ;

    /// Remove a position, returning it if present.
    fn remove(&mut self, account: &str, symbol: &Symbol) -> (r: Result<Option<Position>, PortError>)
        requires
            old(self).inv(),
        ensures
            final(self).inv(),
            final(self).reliable() == old(self).reliable(),
            old(self).reliable() ==> r is Ok,
            r matches Ok(o) ==> final(self).book() == old(self).book().remove((account@, symbol@))
                && match o {
                Some(p) => old(self).book().dom().contains((account@, symbol@)) && old(
                    self,
                ).book()[(account@, symbol@)] == p,
                None => !old(self).book().dom().contains((account@, symbol@)),
            },
            r is Err ==> final(self).book() == old(self).book(),
            r matches Ok(Some(_)) ==> final(self).ranks() == unranked(old(self).ranks(), (account@, symbol@)),
            r matches Ok(None) || r is Err ==> final(self).ranks() == old(self).ranks(),
    ;

    /// All positions in a market, each once, in the store's order.
    fn by_market(&self, symbol: &Symbol) -> (r: Result<Vec<Position>, PortError>)
        requires
            self.inv(),
        ensures
            self.reliable() ==> r is Ok,
            r matches Ok(v) ==> lists_market(v@, self.book(), symbol@) && v@.len()
                <= self.book().len(),
            r matches Ok(v) ==> in_rank_order(v@, self.ranks()),
    ;

    /// Total number of open positions.
    fn count(&self) -> (r: Result<u64, PortError>)
        requires
            self.inv(),
        ensures
            self.reliable() ==> r is Ok,
            r matches Ok(n) ==> n == self.book().len(),
    ;
}

/// Publishes engine events to interested consumers.
pub trait EventSink {
    /// Whether this sink takes every batch it is handed (false unless an
    /// implementation says otherwise).
    open spec fn accepts_all(&self) -> bool {
        false
    }

    /// Whether the sink has been handed the batch `events`, for a sink that
    /// keeps such a record (true for one that keeps none).
    open spec fn handed(&self, events: Seq<RiskEvent>) -> bool {
        true
    }

    /// Publish a batch of events.
    fn publish(&self, events: &[RiskEvent]) -> (r: Result<(), PortError>)
        ensures
            self.handed(events@),
            self.accepts_all() ==> r is Ok,
    ;
}

/// Admission control for incoming commands (a rate limiter).
pub trait CommandGate {
    /// Whether this gate lets every command through (false unless an
    /// implementation says otherwise).
    open spec fn admits_all(&self) -> bool {
        false
    }

    /// Whether one more command may be admitted now.
    fn try_acquire(&self) -> (r: bool)
        ensures
            self.admits_all() ==> r,
    ;
}

} // verus!

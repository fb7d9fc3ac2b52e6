//! The pass over the catalog: which batch of items to ask the catalog source
//! for next, and when the whole catalog has been covered.

use vstd::prelude::*;

verus! {

/// One entry of the catalog.
#[derive(Debug, PartialEq, Eq)]
pub struct CatalogItem {
    pub id: String,
    pub expected_record_count: u32,
}

/// A request to the catalog source for the items from `offset` on, `limit`
/// of them at most.
#[derive(Debug, Clone, Copy, PartialEq, Eq, Structural)]
pub struct BatchRequest {
    pub offset: u32,
    pub limit: u32,
}

/// Where a pass over the catalog stands.
pub struct WalkerState {
    /// How many items one batch asks for.
    pub batch_size: nat,
    /// How many items the catalog was counted to hold when the pass began.
    pub total: nat,
    /// Where the batch begins that is asked for next; once the pass is
    /// over, where the batch after the last would have begun.
    pub offset: nat,
    /// Whether the pass is over.
    pub finished: bool,
}

/// A pass at its beginning.
pub open spec fn walk_start(batch_size: nat, total: nat) -> WalkerState {
    WalkerState { batch_size, total, offset: 0, finished: false }
}

/// The pass after its current batch has been worked through: the offset
/// moves on by one batch, and the pass is over once the offset exceeds the
/// total.
pub open spec fn walk_step(s: WalkerState) -> WalkerState {
    if s.finished {
        s
    } else {
        WalkerState {
            batch_size: s.batch_size,
            total: s.total,
            offset: s.offset + s.batch_size,
            finished: s.offset + s.batch_size > s.total,
        }
    }
}

/// What a catalog source that holds `catalog` hands out for a request.
pub open spec fn batch_of<A>(catalog: Seq<A>, offset: nat, limit: nat) -> Seq<A> {
    let from = if offset <= catalog.len() {
        offset
    } else {
        catalog.len()
    };
    let to = if offset + limit <= catalog.len() {
        offset + limit
    } else {
        catalog.len()
    };
    catalog.subrange(from as int, to as int)
}

/// The items that a pass visits from state `s` on, in the order of the
/// visits.
pub open spec fn visited<A>(catalog: Seq<A>, s: WalkerState) -> Seq<A>
    decreases
            (if s.finished || s.batch_size == 0 || s.offset > s.total {
                0
            } else {
                s.total + 1 - s.offset
            }),
{
    if s.finished || s.batch_size == 0 || s.offset > s.total {
        Seq::empty()
    } else {
        batch_of(catalog, s.offset, s.batch_size) + visited(catalog, walk_step(s))
    }
}

/// From any offset within the catalog, a pass with a positive batch size
/// visits the rest of the catalog, item by item and in order.
pub proof fn lemma_visits_rest<A>(catalog: Seq<A>, s: WalkerState)
    requires
        s.batch_size > 0,
        s.total == catalog.len(),
        !s.finished,
        s.offset <= s.total,
    ensures
        visited(catalog, s) == catalog.subrange(s.offset as int, catalog.len() as int),
    decreases s.total + 1 - s.offset,
{
    let next = walk_step(s);
    if next.finished {
        assert(visited(catalog, next) == Seq::<A>::empty());
        assert(visited(catalog, s) =~= catalog.subrange(s.offset as int, catalog.len() as int));
    } else {
        lemma_visits_rest(catalog, next);
        assert(visited(catalog, s) =~= catalog.subrange(s.offset as int, catalog.len() as int));
    }
}

/// A pass with a positive batch size visits every item of the catalog
/// exactly once, in catalog order, whether or not the batch size divides the
/// number of items.
pub proof fn lemma_walk_covers_catalog<A>(catalog: Seq<A>, batch_size: nat)
    requires
        batch_size > 0,
    ensures
        visited(catalog, walk_start(batch_size, catalog.len())) == catalog,
{
    lemma_visits_rest(catalog, walk_start(batch_size, catalog.len()));
    assert(catalog.subrange(0, catalog.len() as int) =~= catalog);
}

/// The state after `steps` batches.
pub open spec fn walk_steps(s: WalkerState, steps: nat) -> WalkerState
    decreases steps,
{
    if steps == 0 {
        s
    } else {
        walk_step(walk_steps(s, (steps - 1) as nat))
    }
}

/// The batches begin at the multiples of the batch size up to the total:
/// batch `k` begins at `k * batch_size` while that does not exceed the
/// total, and the pass is over after the last such batch.
pub proof fn lemma_walk_schedule(batch_size: nat, total: nat, k: nat)
    requires
        batch_size > 0,
        k * batch_size <= total,
    ensures
        walk_steps(walk_start(batch_size, total), k) == (WalkerState {
            batch_size,
            total,
            offset: k * batch_size,
            finished: false,
        }),
        total < (k + 1) * batch_size ==> walk_steps(walk_start(batch_size, total), k + 1).finished,
    decreases k,
{
    let start = walk_start(batch_size, total);
    if k > 0 {
        let j = (k - 1) as nat;
        assert(j * batch_size + batch_size == k * batch_size) by (nonlinear_arith)
            requires
                j + 1 == k,
        ;
        lemma_walk_schedule(batch_size, total, j);
        assert(walk_steps(start, k) == walk_step(walk_steps(start, j)));
    } else {
        assert(k * batch_size == 0) by (nonlinear_arith)
            requires
                k == 0,
        ;
    }
    assert(k * batch_size + batch_size == (k + 1) * batch_size) by (nonlinear_arith);
    assert(walk_steps(start, k + 1) == walk_step(walk_steps(start, k)));
}

/// A pass over the catalog in batches of a fixed size.
#[derive(Debug)]
pub struct Walker {
    batch_size: u32,
    total: u32,
    offset: u64,
    finished: bool,
}

impl View for Walker {
    type V = WalkerState;

    closed spec fn view(&self) -> WalkerState {
        WalkerState {
            batch_size: self.batch_size as nat,
            total: self.total as nat,
            offset: self.offset as nat,
            finished: self.finished,
        }
    }
}

impl Walker {
    #[verifier::type_invariant]
    spec fn within_reach(&self) -> bool {
        if self.finished {
            self.offset <= self.total + self.batch_size
        } else {
            self.offset <= self.total
        }
    }

    /// A pass over a catalog of `total` items, `batch_size` at a time, at
    /// its beginning.
    pub fn new(batch_size: u32, total: u32) -> (walker: Walker)
        ensures
            walker@ == walk_start(batch_size as nat, total as nat),
    {
        Walker { batch_size, total, offset: 0, finished: false }
    }

    /// Whether the pass is over.
    pub fn is_finished(&self) -> (finished: bool)
        ensures
            finished == self@.finished,
    {
        self.finished
    }

    /// The batch to ask the catalog source for; none once the pass is over.
    pub fn current(&self) -> (request: Option<BatchRequest>)
        ensures
            self@.finished ==> request is None,
            !self@.finished ==> request == Some(
                BatchRequest { offset: self@.offset as u32, limit: self@.batch_size as u32 },
            ) && self@.offset <= self@.total,
    {
        proof {
            use_type_invariant(self);
        }
        if self.finished {
            None
        } else {
            Some(BatchRequest { offset: self.offset as u32, limit: self.batch_size })
        }
    }

    /// Moves on after the current batch has been worked through, and gives
    /// the offset reached as the sign of progress.
    pub fn advance(&mut self) -> (progress: u64)
        ensures
            final(self)@ == walk_step(old(self)@),
            progress == final(self)@.offset,
    {
        proof {
            use_type_invariant(&*self);
        }
        if !self.finished {
            let reached: u64 = self.offset + self.batch_size as u64;
            *self = Walker {
                batch_size: self.batch_size,
                total: self.total,
                offset: reached,
                finished: reached > self.total as u64,
            };
        }
        self.offset
    }
}

} // verus!

//! The pages of one catalog item: which page to fetch next, what has been
//! counted so far, and when to stop.

use crate::document::Tree;
use crate::extractor::{records_in, RECORDS_FIELD};
use crate::page::{yield_of, PageError, PageOutcome};
use crate::request::PageRequest;
use crate::sink::successes;
use crate::text::{append_decimal, decimal};
use crate::walker::CatalogItem;
use vstd::prelude::*;
use vstd::string::*;

verus! {

/// The count of one item's records against what the catalog expects.
#[derive(Debug, PartialEq, Eq)]
pub struct ItemTally {
    pub item_id: String,
    pub expected: u32,
    pub observed: u64,
}

/// The warning of an item that ended with `observed` records where the
/// catalog expects `expected`.
pub open spec fn discrepancy_message(item_id: Seq<char>, expected: nat, observed: nat) -> Seq<
    char,
> {
    "Product "@ + item_id + ": "@ + decimal(expected) + " comments expected, "@ + decimal(observed)
        + " found."@
}

impl ItemTally {
    /// The warning to give of this count.
    pub fn message(&self) -> (message: String)
        ensures
            message@ == discrepancy_message(
                self.item_id@,
                self.expected as nat,
                self.observed as nat,
            ),
    {
        let mut message = String::from_str("Product ");
        message.append(self.item_id.as_str());
        message.append(": ");
        append_decimal(&mut message, self.expected as u64);
        message.append(" comments expected, ");
        append_decimal(&mut message, self.observed);
        message.append(" found.");
        message
    }
}

/// Where the pagination of one item stands.
pub struct PaginatorState {
    /// How many pages have been worked through; the next page has this
    /// number.
    pub pages_fetched: nat,
    /// How many records those pages counted for.
    pub observed: nat,
    /// Whether pagination has stopped.
    pub finished: bool,
    /// What went wrong with the last page, where pagination stopped for a
    /// page that failed and not for one that was read and held nothing.
    pub failure: Option<PageError>,
}

/// Pagination at its beginning.
pub open spec fn page_start() -> PaginatorState {
    PaginatorState { pages_fetched: 0, observed: 0, finished: false, failure: None }
}

/// What went wrong with a page, if anything.
pub open spec fn failure_of(outcome: PageOutcome) -> Option<PageError> {
    match outcome {
        PageOutcome::Persisted(_) => None,
        PageOutcome::Failed(error) => Some(error),
    }
}

/// Pagination after one more page: the count grows by what the page counts
/// for, and a page that counts for nothing is the last.
pub open spec fn page_step(s: PaginatorState, outcome: PageOutcome) -> PaginatorState {
    if s.finished {
        s
    } else {
        PaginatorState {
            pages_fetched: s.pages_fetched + 1,
            observed: s.observed + yield_of(outcome),
            finished: yield_of(outcome) == 0,
            failure: failure_of(outcome),
        }
    }
}

/// Pagination after the pages of `outcomes`, taken in order.
pub open spec fn run_pages(s: PaginatorState, outcomes: Seq<PageOutcome>) -> PaginatorState
    decreases outcomes.len(),
{
    if outcomes.len() == 0 {
        s
    } else {
        run_pages(page_step(s, outcomes[0]), outcomes.drop_first())
    }
}

/// The number of records that the pages of `outcomes` count for together.
pub open spec fn total_of(outcomes: Seq<PageOutcome>) -> nat
    decreases outcomes.len(),
{
    if outcomes.len() == 0 {
        0
    } else {
        yield_of(outcomes[0]) + total_of(outcomes.drop_first())
    }
}

/// Whether the item ended with fewer records than the catalog expects.
pub open spec fn discrepant(s: PaginatorState, expected: nat) -> bool {
    s.finished && s.observed < expected
}

/// Once pagination has stopped, no further page changes anything.
pub proof fn lemma_finished_stays(s: PaginatorState, outcomes: Seq<PageOutcome>)
    requires
        s.finished,
    ensures
        run_pages(s, outcomes) == s,
    decreases outcomes.len(),
{
    if outcomes.len() > 0 {
        lemma_finished_stays(s, outcomes.drop_first());
    }
}

/// Pagination stops with the first page that counts for nothing, whatever
/// the remote resource would have served after it: if page `k` is the first
/// such page, exactly `k + 1` pages are worked through, and the records
/// counted are those of the pages before it.
pub proof fn lemma_stops_at_first_empty(s: PaginatorState, outcomes: Seq<PageOutcome>, k: int)
    requires
        !s.finished,
        0 <= k < outcomes.len(),
        yield_of(outcomes[k]) == 0,
        forall|j: int| 0 <= j < k ==> yield_of(outcomes[j]) > 0,
    ensures
        run_pages(s, outcomes) == (PaginatorState {
            pages_fetched: (s.pages_fetched + k + 1) as nat,
            observed: s.observed + total_of(outcomes.take(k)),
            finished: true,
            failure: failure_of(outcomes[k]),
        }),
    decreases k,
{
    let rest = outcomes.drop_first();
    if k == 0 {
        lemma_finished_stays(page_step(s, outcomes[0]), rest);
        assert(outcomes.take(0) =~= Seq::<PageOutcome>::empty());
    } else {
        assert forall|j: int| 0 <= j < k - 1 implies yield_of(rest[j]) > 0 by {
            assert(rest[j] == outcomes[j + 1]);
        }
        assert(rest[k - 1] == outcomes[k]);
        lemma_stops_at_first_empty(page_step(s, outcomes[0]), rest, k - 1);
        assert(outcomes.take(k).drop_first() =~= rest.take(k - 1));
        assert(outcomes.take(k)[0] == outcomes[0]);
    }
}

/// Where the remote resource serves every record that the catalog expects
/// on a run of pages that each hold some, and then an empty page, the count
/// equals the expectation and there is no discrepancy.
pub proof fn lemma_full_harvest(outcomes: Seq<PageOutcome>, k: int, expected: nat)
    requires
        0 <= k < outcomes.len(),
        yield_of(outcomes[k]) == 0,
        forall|j: int| 0 <= j < k ==> yield_of(outcomes[j]) > 0,
        total_of(outcomes.take(k)) == expected,
    ensures
        run_pages(page_start(), outcomes).finished,
        run_pages(page_start(), outcomes).observed == expected,
        run_pages(page_start(), outcomes).pages_fetched == k + 1,
        !discrepant(run_pages(page_start(), outcomes), expected),
{
    lemma_stops_at_first_empty(page_start(), outcomes, k);
}

/// A page that failed, for whatever reason, counts for nothing and so ends
/// the pagination of its item; the records counted before it stand, and the
/// reason is kept so that such an end can be told from an empty page.
pub proof fn lemma_failed_page_ends(s: PaginatorState, error: PageError)
    requires
        !s.finished,
    ensures
        page_step(s, PageOutcome::Failed(error)) == (PaginatorState {
            pages_fetched: s.pages_fetched + 1,
            observed: s.observed,
            finished: true,
            failure: Some(error),
        }),
{
}

/// A page whose document lacks the records member holds no records, so
/// that whatever the sink answers nothing of it is written, and the page
/// ends the pagination of its item.
pub proof fn lemma_page_without_records_ends(
    document: Tree,
    outcomes: Seq<bool>,
    s: PaginatorState,
)
    requires
        document.field(RECORDS_FIELD@) is None,
        outcomes.len() == records_in(document).len(),
        !s.finished,
    ensures
        records_in(document) == Seq::<Tree>::empty(),
        successes(outcomes) == 0,
        page_step(s, PageOutcome::Persisted(0)).finished,
        page_step(s, PageOutcome::Persisted(0)).observed == s.observed,
{
}

/// The pagination of one catalog item.
#[derive(Debug)]
pub struct Paginator {
    item: CatalogItem,
    pages_fetched: u32,
    observed: u64,
    finished: bool,
    failure: Option<PageError>,
}

impl View for Paginator {
    type V = PaginatorState;

    closed spec fn view(&self) -> PaginatorState {
        PaginatorState {
            pages_fetched: self.pages_fetched as nat,
            observed: self.observed as nat,
            finished: self.finished,
            failure: self.failure,
        }
    }
}

impl Paginator {
    /// The item whose records are paginated.
    pub closed spec fn item(&self) -> CatalogItem {
        self.item
    }

    /// Whether one more page with this outcome can be counted within the
    /// limits of the counters.
    pub open spec fn has_room_for(&self, outcome: PageOutcome) -> bool {
        self@.finished || (self@.pages_fetched < u32::MAX && self@.observed + yield_of(outcome)
            <= u64::MAX)
    }

    /// The pagination of `item`, at its beginning.
    pub fn new(item: CatalogItem) -> (paginator: Paginator)
        ensures
            paginator@ == page_start(),
            paginator.item() == item,
    {
        Paginator { item, pages_fetched: 0, observed: 0, finished: false, failure: None }
    }

    /// Whether pagination has stopped.
    pub fn is_finished(&self) -> (finished: bool)
        ensures
            finished == self@.finished,
    {
        self.finished
    }

    /// How many pages have been worked through.
    pub fn pages_fetched(&self) -> (pages: u32)
        ensures
            pages == self@.pages_fetched,
    {
        self.pages_fetched
    }

    /// How many records have been counted.
    pub fn observed(&self) -> (observed: u64)
        ensures
            observed == self@.observed,
    {
        self.observed
    }

    /// What went wrong with the last page, where pagination stopped for a
    /// failure: an end that says nothing of what the remote resource holds.
    pub fn failure(&self) -> (failure: Option<PageError>)
        ensures
            failure == self@.failure,
    {
        self.failure
    }

    /// The page to fetch; none once pagination has stopped.
    pub fn request(&self) -> (request: Option<PageRequest>)
        ensures
            self@.finished ==> request is None,
            !self@.finished ==> (request matches Some(page) && page.item_id@ == self.item().id@
                && page.page_number == self@.pages_fetched),
    {
        if self.finished {
            None
        } else {
            Some(PageRequest { item_id: self.item.id.clone(), page_number: self.pages_fetched })
        }
    }

    /// Whether one more page with this outcome can be counted.
    pub fn can_record(&self, outcome: PageOutcome) -> (room: bool)
        ensures
            room == self.has_room_for(outcome),
    {
        self.finished || (self.pages_fetched < u32::MAX && outcome.records() as u64 <= u64::MAX
            - self.observed)
    }

    /// Counts the page that was asked for last, and says whether another
    /// page is to be fetched.
    pub fn record(&mut self, outcome: PageOutcome) -> (more: bool)
        requires
            old(self).has_room_for(outcome),
        ensures
            final(self)@ == page_step(old(self)@, outcome),
            final(self).item() == old(self).item(),
            more == !final(self)@.finished,
    {
        if !self.finished {
            let written = outcome.records();
            self.pages_fetched = self.pages_fetched + 1;
            self.observed = self.observed + written as u64;
            self.finished = written == 0;
            self.failure =
            match outcome {
                PageOutcome::Persisted(_) => None,
                PageOutcome::Failed(error) => Some(error),
            };
        }
        !self.finished
    }

    /// The count so far.
    pub fn tally(&self) -> (tally: ItemTally)
        ensures
            tally.item_id@ == self.item().id@,
            tally.expected == self.item().expected_record_count,
            tally.observed == self@.observed,
    {
        ItemTally {
            item_id: self.item.id.clone(),
            expected: self.item.expected_record_count,
            observed: self.observed,
        }
    }

    /// The count to warn of: that of an item whose pagination has stopped
    /// short of what the catalog expects.
    pub fn discrepancy(&self) -> (warning: Option<ItemTally>)
        ensures
            warning is Some <==> discrepant(self@, self.item().expected_record_count as nat),
            warning matches Some(tally) ==> (tally.item_id@ == self.item().id@ && tally.expected
                == self.item().expected_record_count && tally.observed == self@.observed),
    {
        if self.finished && self.observed < self.item.expected_record_count as u64 {
            Some(self.tally())
        } else {
            None
        }
    }
}

} // verus!

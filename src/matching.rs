//! The matching engine: which invoice, if any, a payout event settles.
use vstd::prelude::*;
use crate::model::{Contact, Invoice, InvoiceType, ShiftEvent};
use crate::similarity::{contact_similarity, plausible_match};

verus! {

broadcast use vstd::seq_lib::group_filter_ensures;

/// Whether the event's description plausibly names the contact; an event
/// without a description names nobody.
pub open spec fn describes(event: ShiftEvent, contact: Contact) -> bool {
    match event.description {
        Some(d) => plausible_match(d@, contact.name@),
        None => false,
    }
}

/// An invoice that the event may settle: payable, its contact named by the
/// description, and its amount due or its amount paid equal to the event's.
pub open spec fn qualifies(event: ShiftEvent, inv: Invoice) -> bool {
    &&& inv.invoice_type == InvoiceType::AccPay
    &&& describes(event, inv.contact)
    &&& (inv.amount_due.cents == event.event_money.amount as int || inv.amount_paid.cents
        == event.event_money.amount as int)
}

/// The qualifying invoices, in the order given.
pub open spec fn candidates(event: ShiftEvent, invoices: Seq<Invoice>) -> Seq<Invoice> {
    invoices.filter(|inv: Invoice| qualifies(event, inv))
}

/// An invoice on which something has been paid already.
pub open spec fn settled(inv: Invoice) -> bool {
    inv.amount_paid.cents > 0
}

pub open spec fn any_settled(invoices: Seq<Invoice>) -> bool {
    exists|k: int| 0 <= k < invoices.len() && settled(#[trigger] invoices[k])
}

/// What a match result stands for.
pub enum MatchOutcome {
    NoMatch,
    AlreadyPaid,
    UnpaidSingle(Invoice),
    UnpaidMultiple(Seq<Invoice>),
}

/// The classification of an event against the invoices: no candidate, a
/// settled candidate (which takes precedence), one unpaid candidate, or
/// several unpaid candidates in their original order.
pub open spec fn expected_match(event: ShiftEvent, invoices: Seq<Invoice>) -> MatchOutcome {
    let c = candidates(event, invoices);
    if c.len() == 0 {
        MatchOutcome::NoMatch
    } else if any_settled(c) {
        MatchOutcome::AlreadyPaid
    } else if c.len() == 1 {
        MatchOutcome::UnpaidSingle(c[0])
    } else {
        MatchOutcome::UnpaidMultiple(c)
    }
}

/// The result of matching one event.
#[derive(Debug, Clone)]
pub enum InvoiceMatchResult {
    NoMatch,
    AlreadyPaid,
    UnpaidSingle(Invoice),
    UnpaidMultiple(Vec<Invoice>),
}

impl View for InvoiceMatchResult {
    type V = MatchOutcome;

    open spec fn view(&self) -> MatchOutcome {
        match self {
            InvoiceMatchResult::NoMatch => MatchOutcome::NoMatch,
            InvoiceMatchResult::AlreadyPaid => MatchOutcome::AlreadyPaid,
            InvoiceMatchResult::UnpaidSingle(inv) => MatchOutcome::UnpaidSingle(*inv),
            InvoiceMatchResult::UnpaidMultiple(v) => MatchOutcome::UnpaidMultiple(v@),
        }
    }
}

/// Whether the event's description plausibly names the contact.
pub fn fuzzy_matches_contact(event: &ShiftEvent, contact: &Contact) -> (r: bool)
    ensures
        r == describes(*event, *contact),
{
    match &event.description {
        None => false,
        Some(desc) => contact_similarity(desc.as_str(), contact.name.as_str()).is_plausible(),
    }
}

/// The invoices of the ledger, in the order they were retrieved.
#[derive(Debug, Clone)]
pub struct GetInvoicesResponse {
    pub invoices: Vec<Invoice>,
}

impl GetInvoicesResponse {
    /// Classifies `event` against the invoices.
    pub fn find_match(&self, event: &ShiftEvent) -> (r: InvoiceMatchResult)
        ensures
            r@ == expected_match(*event, self.invoices@),
    {
        let event_dec = event.event_money.as_dec();
        let ghost invs = self.invoices@;
        let mut found: Vec<Invoice> = Vec::new();
        let mut i: usize = 0;
        while i < self.invoices.len()
            invariant
                invs == self.invoices@,
                i <= invs.len(),
                event_dec.cents == event.event_money.amount as int,
                found@ == candidates(*event, invs.subrange(0, i as int)),
            decreases invs.len() - i,
        {
            let inv = &self.invoices[i];
            let keep = inv.invoice_type == InvoiceType::AccPay && fuzzy_matches_contact(
                event,
                &inv.contact,
            ) && (inv.amount_due.normalize() == event_dec || inv.amount_paid.normalize()
                == event_dec);
            proof {
                reveal(Seq::filter);
                assert(invs.subrange(0, i + 1).drop_last() =~= invs.subrange(0, i as int));
                assert(invs.subrange(0, i + 1).last() == invs[i as int]);
            }
            if keep {
                found.push(inv.duplicate());
            }
            i += 1;
        }
        assert(invs.subrange(0, invs.len() as int) =~= invs);
        if found.len() == 0 {
            return InvoiceMatchResult::NoMatch;
        }
        let mut paid = false;
        let mut j: usize = 0;
        while j < found.len()
            invariant
                j <= found@.len(),
                paid <==> exists|k: int| 0 <= k < j && settled(#[trigger] found@[k]),
            decreases found@.len() - j,
        {
            if found[j].amount_paid.is_positive() {
                paid = true;
            }
            j += 1;
        }
        if paid {
            InvoiceMatchResult::AlreadyPaid
        } else if found.len() == 1 {
            InvoiceMatchResult::UnpaidSingle(found[0].duplicate())
        } else {
            InvoiceMatchResult::UnpaidMultiple(found)
        }
    }
}

/// Matching is a function of its inputs: two results that both meet the
/// contract of `find_match` for the same event and invoices are the same.
pub proof fn lemma_match_deterministic(
    event: ShiftEvent,
    invoices: Seq<Invoice>,
    r1: InvoiceMatchResult,
    r2: InvoiceMatchResult,
)
    requires
        r1@ == expected_match(event, invoices),
        r2@ == expected_match(event, invoices),
    ensures
        r1@ == r2@,
{
}

/// A qualifying invoice with something already paid makes the result
/// `AlreadyPaid`, whatever unpaid candidates there are beside it.
pub proof fn lemma_settled_takes_precedence(event: ShiftEvent, invoices: Seq<Invoice>, k: int)
    requires
        0 <= k < invoices.len(),
        qualifies(event, invoices[k]),
        settled(invoices[k]),
    ensures
        expected_match(event, invoices) == MatchOutcome::AlreadyPaid,
{
    let pred = |inv: Invoice| qualifies(event, inv);
    let c = candidates(event, invoices);
    assert(pred(invoices[k]));
    assert(c.contains(invoices[k]));
    let j = choose|j: int| 0 <= j < c.len() && c[j] == invoices[k];
    assert(settled(c[j]));
}

/// Where no qualifying invoice has anything paid, one candidate gives
/// `UnpaidSingle` of it, and two or more give `UnpaidMultiple` of all the
/// qualifying invoices in their original order.
pub proof fn lemma_unpaid_single_or_multiple(event: ShiftEvent, invoices: Seq<Invoice>)
    requires
        forall|k: int|
            0 <= k < invoices.len() && qualifies(event, #[trigger] invoices[k]) ==> !settled(
                invoices[k],
            ),
    ensures
        candidates(event, invoices).len() == 1 ==> expected_match(event, invoices)
            == MatchOutcome::UnpaidSingle(candidates(event, invoices)[0]),
        candidates(event, invoices).len() >= 2 ==> expected_match(event, invoices)
            == MatchOutcome::UnpaidMultiple(invoices.filter(|inv: Invoice| qualifies(event, inv))),
{
    let pred = |inv: Invoice| qualifies(event, inv);
    let c = candidates(event, invoices);
    assert forall|j: int| 0 <= j < c.len() implies !settled(#[trigger] c[j]) by {
        assert(pred(c[j]));
        assert(c.contains(c[j]));
        invoices.lemma_filter_contains_rev(pred, c[j]);
        let k = choose|k: int| 0 <= k < invoices.len() && invoices[k] == c[j];
        assert(qualifies(event, invoices[k]));
    }
}

/// An event without a description matches no invoice.
pub proof fn lemma_no_description_no_match(event: ShiftEvent, invoices: Seq<Invoice>)
    requires
        event.description is None,
    ensures
        expected_match(event, invoices) == MatchOutcome::NoMatch,
{
    let pred = |inv: Invoice| qualifies(event, inv);
    let c = candidates(event, invoices);
    if c.len() > 0 {
        assert(pred(c[0]));
    }
}

} // verus!

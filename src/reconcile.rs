//! The reconciliation driver: classifies the payouts of closed shifts and
//! derives the payments to submit.
use vstd::prelude::*;
use crate::amount::Amount;
use crate::matching::{expected_match, GetInvoicesResponse, InvoiceMatchResult, MatchOutcome};
use crate::model::{CalendarDate, Invoice, Shift, ShiftEvent, ShiftEventType, ShiftState};
use crate::resolve::SelectionError;

verus! {

/// Reference written on every payment that reconciliation derives.
pub const PAYMENT_REFERENCE: &'static str = "Auto-reconciled using cashtx tool";

/// A payout and the invoice it settles.
#[derive(Debug, Clone)]
pub struct MatchedPayout {
    pub shift: Shift,
    pub event: ShiftEvent,
    pub invoice: Invoice,
}

/// A payout that settles no invoice, or whose choice was deferred.
#[derive(Debug, Clone)]
pub struct UnmatchedPayout {
    pub shift: Shift,
    pub event: ShiftEvent,
}

/// A payment to submit for a matched payout.
#[derive(Debug, Clone)]
pub struct PaymentInstruction {
    pub invoice_id: String,
    pub account_code: String,
    pub date: CalendarDate,
    pub amount: Amount,
    pub reference: String,
}

/// Whether an event is to be matched at all: a payout of a closed shift
/// that the exclusion predicate let through.
pub open spec fn reconcilable(shift: Shift, event: ShiftEvent, excluded: bool) -> bool {
    shift.state == ShiftState::Closed && event.event_type == ShiftEventType::PaidOut && !excluded
}

/// The three result sets, in the order the events came.
#[derive(Debug, Clone)]
pub struct Reconciliation {
    pub matched: Vec<MatchedPayout>,
    pub already_paid: Vec<ShiftEvent>,
    pub unmatched: Vec<UnmatchedPayout>,
}

/// The result sets as sequences.
pub struct ReconciliationView {
    pub matched: Seq<MatchedPayout>,
    pub already_paid: Seq<ShiftEvent>,
    pub unmatched: Seq<UnmatchedPayout>,
}

impl View for Reconciliation {
    type V = ReconciliationView;

    open spec fn view(&self) -> ReconciliationView {
        ReconciliationView {
            matched: self.matched@,
            already_paid: self.already_paid@,
            unmatched: self.unmatched@,
        }
    }
}

/// The result sets after one event has been classified; an ambiguous event
/// leaves them as they are until its choice is recorded.
pub open spec fn after_event(
    v: ReconciliationView,
    shift: Shift,
    event: ShiftEvent,
    excluded: bool,
    invoices: Seq<Invoice>,
) -> ReconciliationView {
    if !reconcilable(shift, event, excluded) {
        v
    } else {
        match expected_match(event, invoices) {
            MatchOutcome::NoMatch => ReconciliationView {
                unmatched: v.unmatched.push(UnmatchedPayout { shift, event }),
                ..v
            },
            MatchOutcome::AlreadyPaid => ReconciliationView {
                already_paid: v.already_paid.push(event),
                ..v
            },
            MatchOutcome::UnpaidSingle(invoice) => ReconciliationView {
                matched: v.matched.push(MatchedPayout { shift, event, invoice }),
                ..v
            },
            MatchOutcome::UnpaidMultiple(_) => v,
        }
    }
}

/// The result sets after the choice for an ambiguous event: a chosen
/// invoice is a match; a deferral or an invalid reply leaves it unmatched.
pub open spec fn after_choice(
    v: ReconciliationView,
    shift: Shift,
    event: ShiftEvent,
    choice: Result<Option<Invoice>, SelectionError>,
) -> ReconciliationView {
    match choice {
        Ok(Some(invoice)) => ReconciliationView {
            matched: v.matched.push(MatchedPayout { shift, event, invoice }),
            ..v
        },
        _ => ReconciliationView { unmatched: v.unmatched.push(UnmatchedPayout { shift, event }), ..v },
    }
}

impl Reconciliation {
    pub fn new() -> (r: Reconciliation)
        ensures
            r.matched@.len() == 0,
            r.already_paid@.len() == 0,
            r.unmatched@.len() == 0,
    {
        Reconciliation { matched: Vec::new(), already_paid: Vec::new(), unmatched: Vec::new() }
    }

    /// Classifies one event of `shift` against the invoices and files it.
    /// Where several unpaid invoices qualify, nothing is filed and they are
    /// returned, in their original order, for a choice.
    pub fn record_event(
        &mut self,
        shift: &Shift,
        event: &ShiftEvent,
        excluded: bool,
        book: &GetInvoicesResponse,
    ) -> (r: Option<Vec<Invoice>>)
        ensures
            final(self)@ == after_event(old(self)@, *shift, *event, excluded, book.invoices@),
            r is Some <==> reconcilable(*shift, *event, excluded) && expected_match(
                *event,
                book.invoices@,
            ) is UnpaidMultiple,
            r matches Some(v) ==> expected_match(*event, book.invoices@)
                == MatchOutcome::UnpaidMultiple(v@),
    {
        if shift.state != ShiftState::Closed || event.event_type != ShiftEventType::PaidOut
            || excluded {
            return None;
        }
        match book.find_match(event) {
            InvoiceMatchResult::NoMatch => {
                self.unmatched.push(
                    UnmatchedPayout { shift: shift.duplicate(), event: event.duplicate() },
                );
                None
            },
            InvoiceMatchResult::AlreadyPaid => {
                self.already_paid.push(event.duplicate());
                None
            },
            InvoiceMatchResult::UnpaidSingle(invoice) => {
                self.matched.push(
                    MatchedPayout { shift: shift.duplicate(), event: event.duplicate(), invoice },
                );
                None
            },
            InvoiceMatchResult::UnpaidMultiple(candidates) => Some(candidates),
        }
    }

    /// Files an ambiguous event by the choice made for it. An invalid reply
    /// counts as a deferral and is handed back to be reported.
    pub fn record_choice(
        &mut self,
        shift: &Shift,
        event: &ShiftEvent,
        choice: Result<Option<Invoice>, SelectionError>,
    ) -> (r: Option<SelectionError>)
        ensures
            final(self)@ == after_choice(old(self)@, *shift, *event, choice),
            r == match choice {
                Err(e) => Some(e),
                Ok(_) => None::<SelectionError>,
            },
    {
        match choice {
            Ok(Some(invoice)) => {
                self.matched.push(
                    MatchedPayout { shift: shift.duplicate(), event: event.duplicate(), invoice },
                );
                None
            },
            Ok(None) => {
                self.unmatched.push(
                    UnmatchedPayout { shift: shift.duplicate(), event: event.duplicate() },
                );
                None
            },
            Err(e) => {
                self.unmatched.push(
                    UnmatchedPayout { shift: shift.duplicate(), event: event.duplicate() },
                );
                Some(e)
            },
        }
    }

    /// One payment per matched payout, in order: the invoice, the account,
    /// the day of the shift, the payout's amount and the fixed reference.
    pub fn payment_instructions(&self, account_code: &String) -> (r: Vec<PaymentInstruction>)
        ensures
            r@.len() == self.matched@.len(),
            forall|i: int|
                0 <= i < r@.len() ==> {
                    let p = #[trigger] r@[i];
                    let m = self.matched@[i];
                    &&& p.invoice_id == m.invoice.invoice_id
                    &&& p.account_code == *account_code
                    &&& p.date == m.shift.created_on
                    &&& p.amount.cents == m.event.event_money.amount as int
                    &&& p.reference@ == PAYMENT_REFERENCE@
                },
    {
        let mut out: Vec<PaymentInstruction> = Vec::new();
        let mut i: usize = 0;
        while i < self.matched.len()
            invariant
                i <= self.matched@.len(),
                out@.len() == i,
                forall|k: int|
                    0 <= k < i ==> {
                        let p = #[trigger] out@[k];
                        let m = self.matched@[k];
                        &&& p.invoice_id == m.invoice.invoice_id
                        &&& p.account_code == *account_code
                        &&& p.date == m.shift.created_on
                        &&& p.amount.cents == m.event.event_money.amount as int
                        &&& p.reference@ == PAYMENT_REFERENCE@
                    },
            decreases self.matched@.len() - i,
        {
            let m = &self.matched[i];
            out.push(
                PaymentInstruction {
                    invoice_id: m.invoice.invoice_id.clone(),
                    account_code: account_code.clone(),
                    date: m.shift.created_on,
                    amount: m.event.event_money.as_dec(),
                    reference: PAYMENT_REFERENCE.to_owned(),
                },
            );
            i += 1;
        }
        out
    }
}

} // verus!

//! Records read from the point-of-sale system and from the ledger.
use vstd::prelude::*;
use crate::amount::Amount;

verus! {

/// A calendar day.
#[derive(Debug, Clone, Copy, PartialEq, Eq, Structural)]
pub struct CalendarDate {
    pub year: i32,
    pub month: u8,
    pub day: u8,
}

#[derive(Debug, Clone, Copy, PartialEq, Eq, Structural)]
pub enum ShiftState {
    Open,
    Closed,
    Ended,
}

/// A cash-drawer shift; only closed shifts are reconciled.
#[derive(Debug, Clone)]
pub struct Shift {
    pub id: String,
    pub state: ShiftState,
    pub created_on: CalendarDate,
}

impl Shift {
    /// A copy equal to `self`.
    pub fn duplicate(&self) -> (r: Shift)
        ensures
            r == *self,
    {
        Shift { id: self.id.clone(), state: self.state, created_on: self.created_on }
    }
}

#[derive(Debug, Clone, Copy, PartialEq, Eq, Structural)]
pub enum ShiftEventType {
    NoSale,
    CashTenderPayment,
    OtherTenderPayment,
    CashTenderCancelledPayment,
    OtherTenderCancelledPayment,
    CashTenderRefund,
    OtherTenderRefund,
    PaidIn,
    PaidOut,
}

/// Money of an event, in minor units of its currency (pence, cents).
#[derive(Debug, Clone)]
pub struct ShiftEventMoney {
    pub amount: i64,
    pub currency: String,
}

impl ShiftEventMoney {
    /// The amount in canonical decimal form: 6038 minor units are 60.38.
    pub fn as_dec(&self) -> (r: Amount)
        ensures
            r.cents == self.amount as int,
    {
        Amount::from_minor_units(self.amount)
    }
}

/// One event of a cash-drawer shift.
#[derive(Debug, Clone)]
pub struct ShiftEvent {
    pub event_type: ShiftEventType,
    pub event_money: ShiftEventMoney,
    pub description: Option<String>,
}

impl ShiftEvent {
    /// A copy equal to `self`.
    pub fn duplicate(&self) -> (r: ShiftEvent)
        ensures
            r == *self,
    {
        let description = match &self.description {
            Some(d) => Some(d.clone()),
            None => None,
        };
        ShiftEvent {
            event_type: self.event_type,
            event_money: ShiftEventMoney {
                amount: self.event_money.amount,
                currency: self.event_money.currency.clone(),
            },
            description,
        }
    }
}

/// Payable invoices are owed by the business; receivable ones are owed to it.
#[derive(Debug, Clone, Copy, PartialEq, Eq, Structural)]
pub enum InvoiceType {
    AccPay,
    AccRec,
}

#[derive(Debug, Clone, Copy, PartialEq, Eq, Structural)]
pub enum InvoiceStatus {
    Draft,
    Submitted,
    Authorised,
    Paid,
    Deleted,
    Voided,
}

#[derive(Debug, Clone)]
pub struct Contact {
    pub contact_id: String,
    pub name: String,
}

/// A ledger invoice; its amounts are held in canonical form.
#[derive(Debug, Clone)]
pub struct Invoice {
    pub invoice_type: InvoiceType,
    pub invoice_id: String,
    pub invoice_number: String,
    pub amount_due: Amount,
    pub amount_paid: Amount,
    pub contact: Contact,
    pub date: CalendarDate,
    pub due_date: CalendarDate,
    pub status: InvoiceStatus,
}

impl Invoice {
    /// A copy equal to `self`.
    pub fn duplicate(&self) -> (r: Invoice)
        ensures
            r == *self,
    {
        Invoice {
            invoice_type: self.invoice_type,
            invoice_id: self.invoice_id.clone(),
            invoice_number: self.invoice_number.clone(),
            amount_due: self.amount_due,
            amount_paid: self.amount_paid,
            contact: Contact {
                contact_id: self.contact.contact_id.clone(),
                name: self.contact.name.clone(),
            },
            date: self.date,
            due_date: self.due_date,
            status: self.status,
        }
    }
}

} // verus!

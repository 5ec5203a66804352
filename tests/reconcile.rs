use cashtx::amount::Amount;
use cashtx::matching::GetInvoicesResponse;
use cashtx::model::{
    CalendarDate, Contact, Invoice, InvoiceStatus, InvoiceType, Shift, ShiftEvent,
    ShiftEventMoney, ShiftEventType, ShiftState,
};
use cashtx::reconcile::{Reconciliation, PAYMENT_REFERENCE};
use cashtx::resolve::{resolve_choice, SelectionError};

fn day(d: u8) -> CalendarDate {
    CalendarDate { year: 2025, month: 10, day: d }
}

fn shift(state: ShiftState) -> Shift {
    Shift { id: "s1".to_string(), state, created_on: day(17) }
}

fn inv(id: &str, name: &str, due: i64, paid: i64) -> Invoice {
    Invoice {
        invoice_type: InvoiceType::AccPay,
        invoice_id: id.to_string(),
        invoice_number: format!("INV-{id}"),
        amount_due: Amount::from_minor_units(due),
        amount_paid: Amount::from_minor_units(paid),
        contact: Contact { contact_id: format!("c-{id}"), name: name.to_string() },
        date: day(1),
        due_date: day(30),
        status: InvoiceStatus::Authorised,
    }
}

fn event(kind: ShiftEventType, amount: i64, description: &str) -> ShiftEvent {
    ShiftEvent {
        event_type: kind,
        event_money: ShiftEventMoney { amount, currency: "GBP".to_string() },
        description: Some(description.to_string()),
    }
}

fn two_acme() -> GetInvoicesResponse {
    GetInvoicesResponse { invoices: vec![inv("x", "Acme Ltd", 2500, 0), inv("y", "Acme Corp", 2500, 0)] }
}

#[test]
fn single_match_yields_payment_instruction() {
    let book = GetInvoicesResponse { invoices: vec![inv("a", "Acme Supplies Ltd", 6038, 0)] };
    let mut rec = Reconciliation::new();
    let s = shift(ShiftState::Closed);
    let e = event(ShiftEventType::PaidOut, 6038, "ACME SUPPLIES");
    assert!(rec.record_event(&s, &e, false, &book).is_none());
    assert_eq!(rec.matched.len(), 1);
    assert_eq!(rec.matched[0].invoice.invoice_id, "a");
    let pays = rec.payment_instructions(&"090".to_string());
    assert_eq!(pays.len(), 1);
    assert_eq!(pays[0].amount.cents, 6038);
    assert_eq!(pays[0].invoice_id, "a");
    assert_eq!(pays[0].account_code, "090");
    assert_eq!(pays[0].date, day(17));
    assert_eq!(pays[0].reference, PAYMENT_REFERENCE);
}

#[test]
fn already_paid_goes_to_its_own_set() {
    let book = GetInvoicesResponse { invoices: vec![inv("a", "Acme Supplies Ltd", 6038, 6038)] };
    let mut rec = Reconciliation::new();
    let e = event(ShiftEventType::PaidOut, 6038, "ACME SUPPLIES");
    assert!(rec.record_event(&shift(ShiftState::Closed), &e, false, &book).is_none());
    assert_eq!(rec.already_paid.len(), 1);
    assert!(rec.matched.is_empty() && rec.unmatched.is_empty());
    assert!(rec.payment_instructions(&"090".to_string()).is_empty());
}

#[test]
fn choosing_second_candidate_matches_it() {
    let book = two_acme();
    let mut rec = Reconciliation::new();
    let s = shift(ShiftState::Closed);
    let e = event(ShiftEventType::PaidOut, 2500, "Acme");
    let cands = rec.record_event(&s, &e, false, &book).expect("ambiguous");
    assert_eq!(cands.len(), 2);
    assert_eq!(cands[0].invoice_id, "x");
    assert_eq!(cands[1].invoice_id, "y");
    assert!(rec.matched.is_empty() && rec.unmatched.is_empty());
    let choice = resolve_choice(&cands, " 1\n");
    assert_eq!(rec.record_choice(&s, &e, choice), None);
    assert_eq!(rec.matched.len(), 1);
    assert_eq!(rec.matched[0].invoice.invoice_id, "y");
}

#[test]
fn deferring_leaves_event_unmatched() {
    let book = two_acme();
    let mut rec = Reconciliation::new();
    let s = shift(ShiftState::Closed);
    let e = event(ShiftEventType::PaidOut, 2500, "Acme");
    let cands = rec.record_event(&s, &e, false, &book).expect("ambiguous");
    let choice = resolve_choice(&cands, "\n");
    assert!(matches!(choice, Ok(None)));
    assert_eq!(rec.record_choice(&s, &e, choice), None);
    assert!(rec.matched.is_empty());
    assert_eq!(rec.unmatched.len(), 1);
}

#[test]
fn invalid_reply_is_reported_and_deferred() {
    let book = two_acme();
    let mut rec = Reconciliation::new();
    let s = shift(ShiftState::Closed);
    let e = event(ShiftEventType::PaidOut, 2500, "Acme");
    let cands = rec.record_event(&s, &e, false, &book).expect("ambiguous");
    assert_eq!(rec.record_choice(&s, &e, resolve_choice(&cands, "two")), Some(SelectionError::NotANumber));
    assert_eq!(rec.record_choice(&s, &e, resolve_choice(&cands, "2")), Some(SelectionError::OutOfRange));
    assert_eq!(rec.unmatched.len(), 2);
    assert!(rec.matched.is_empty());
}

#[test]
fn reply_parsing() {
    let book = two_acme();
    let c = &book.invoices;
    assert_eq!(resolve_choice(c, "0").unwrap().unwrap().invoice_id, "x");
    assert_eq!(resolve_choice(c, "\t01 ").unwrap().unwrap().invoice_id, "y");
    assert!(matches!(resolve_choice(c, "   "), Ok(None)));
    assert!(matches!(resolve_choice(c, ""), Ok(None)));
    assert!(matches!(resolve_choice(c, "1 0"), Err(SelectionError::NotANumber)));
    assert!(matches!(resolve_choice(c, "-1"), Err(SelectionError::NotANumber)));
    assert!(matches!(
        resolve_choice(c, "99999999999999999999999999"),
        Err(SelectionError::OutOfRange)
    ));
    assert!(matches!(resolve_choice(&vec![], "0"), Err(SelectionError::OutOfRange)));
}

#[test]
fn reply_with_plus_sign_selects() {
    let book = two_acme();
    let c = &book.invoices;
    assert_eq!(resolve_choice(c, "+1").unwrap().unwrap().invoice_id, "y");
    assert_eq!(resolve_choice(c, " +0\n").unwrap().unwrap().invoice_id, "x");
    assert!(matches!(resolve_choice(c, "+"), Err(SelectionError::NotANumber)));
    assert!(matches!(resolve_choice(c, "++1"), Err(SelectionError::NotANumber)));
    assert!(matches!(resolve_choice(c, "1+"), Err(SelectionError::NotANumber)));
    assert!(matches!(resolve_choice(c, "+2"), Err(SelectionError::OutOfRange)));
}

#[test]
fn reply_padded_with_unicode_space_selects() {
    let book = two_acme();
    let c = &book.invoices;
    assert_eq!(resolve_choice(c, "\u{a0}1").unwrap().unwrap().invoice_id, "y");
    assert_eq!(resolve_choice(c, "1\u{c}").unwrap().unwrap().invoice_id, "y");
    assert_eq!(resolve_choice(c, "\u{3000}0\u{2028}").unwrap().unwrap().invoice_id, "x");
    assert!(matches!(resolve_choice(c, "\u{a0}\u{85}"), Ok(None)));
    assert!(matches!(resolve_choice(c, "\u{200b}1"), Err(SelectionError::NotANumber)));
}

#[test]
fn only_closed_shift_payouts_are_reconciled() {
    let book = GetInvoicesResponse { invoices: vec![inv("a", "Acme Supplies Ltd", 6038, 0)] };
    let mut rec = Reconciliation::new();
    let paid_out = event(ShiftEventType::PaidOut, 6038, "ACME SUPPLIES");
    let paid_in = event(ShiftEventType::PaidIn, 6038, "ACME SUPPLIES");
    assert!(rec.record_event(&shift(ShiftState::Open), &paid_out, false, &book).is_none());
    assert!(rec.record_event(&shift(ShiftState::Closed), &paid_in, false, &book).is_none());
    assert!(rec.record_event(&shift(ShiftState::Closed), &paid_out, true, &book).is_none());
    assert!(rec.matched.is_empty() && rec.unmatched.is_empty() && rec.already_paid.is_empty());
}

#[test]
fn results_keep_event_order() {
    let book = GetInvoicesResponse { invoices: vec![inv("a", "Acme Supplies Ltd", 6038, 0)] };
    let mut rec = Reconciliation::new();
    let s = shift(ShiftState::Closed);
    rec.record_event(&s, &event(ShiftEventType::PaidOut, 100, "first"), false, &book);
    rec.record_event(&s, &event(ShiftEventType::PaidOut, 6038, "ACME SUPPLIES"), false, &book);
    rec.record_event(&s, &event(ShiftEventType::PaidOut, 200, "second"), false, &book);
    assert_eq!(rec.unmatched.len(), 2);
    assert_eq!(rec.unmatched[0].event.description.as_deref(), Some("first"));
    assert_eq!(rec.unmatched[1].event.description.as_deref(), Some("second"));
    assert_eq!(rec.matched.len(), 1);
}

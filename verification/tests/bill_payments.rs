use recurring_remittance::bill_payments::BillPayments;
use recurring_remittance::bill_payments::Error;

const OWNER: u64 = 1;
const STRANGER: u64 = 9;

#[test]
fn test_create_bill_emits_event() {
    let mut bills = BillPayments::new();

    let bill_id = bills
        .create_bill(OWNER, "Electricity".to_string(), 500, 1735689600, false, 0, 0)
        .unwrap();
    assert_eq!(bill_id, 1);

    let bill = bills.get_bill(bill_id).unwrap();
    assert_eq!(bill.name, "Electricity");
    assert_eq!(bill.amount, 500);
    assert_eq!(bill.due_date, 1735689600);
    assert!(!bill.recurring);
    assert!(!bill.paid);
}

#[test]
fn test_pay_bill_emits_event() {
    let mut bills = BillPayments::new();

    let bill_id = bills
        .create_bill(OWNER, "Water Bill".to_string(), 300, 1735689600, false, 0, 0)
        .unwrap();

    let result = bills.pay_bill(OWNER, bill_id, 50);
    assert!(result.is_ok());

    let bill = bills.get_bill(bill_id).unwrap();
    assert!(bill.paid);
    assert_eq!(bill.paid_at, Some(50));
}

#[test]
fn test_pay_recurring_bill_emits_multiple_events() {
    let mut bills = BillPayments::new();

    let bill_id = bills
        .create_bill(OWNER, "Rent".to_string(), 1000, 1735689600, true, 30, 0)
        .unwrap();

    bills.pay_bill(OWNER, bill_id, 60).unwrap();

    // paying a recurring bill spawns its successor under a fresh id
    let parent = bills.get_bill(bill_id).unwrap();
    assert!(parent.paid);
    let successor = bills.get_bill(2).unwrap();
    assert_eq!(successor.name, "Rent");
    assert_eq!(successor.amount, 1000);
    assert_eq!(successor.due_date, 1735689600 + 30 * 86400);
    assert!(successor.recurring);
    assert!(!successor.paid);
}

#[test]
fn test_multiple_bills_emit_separate_events() {
    let mut bills = BillPayments::new();

    let a = bills.create_bill(OWNER, "Bill 1".to_string(), 100, 1735689600, false, 0, 0).unwrap();
    let b = bills.create_bill(OWNER, "Bill 2".to_string(), 200, 1735689600, false, 0, 0).unwrap();
    let c = bills.create_bill(OWNER, "Bill 3".to_string(), 300, 1735689600, true, 30, 0).unwrap();

    assert_eq!((a, b, c), (1, 2, 3));
    assert_eq!(bills.get_all_bills().len(), 3);
}

#[test]
fn test_create_bill_validation() {
    let mut bills = BillPayments::new();
    assert_eq!(
        bills.create_bill(OWNER, "Free".to_string(), 0, 100, false, 0, 0),
        Err(Error::InvalidAmount)
    );
    assert_eq!(
        bills.create_bill(OWNER, "Loop".to_string(), 10, 100, true, 0, 0),
        Err(Error::InvalidFrequency)
    );
    assert!(bills.get_bill(1).is_none());
}

#[test]
fn test_pay_bill_errors() {
    let mut bills = BillPayments::new();
    assert_eq!(bills.pay_bill(OWNER, 1, 0), Err(Error::BillNotFound));

    let id = bills.create_bill(OWNER, "Gas".to_string(), 40, 100, false, 0, 0).unwrap();
    assert_eq!(bills.pay_bill(STRANGER, id, 0), Err(Error::Unauthorized));

    bills.pay_bill(OWNER, id, 0).unwrap();
    assert_eq!(bills.pay_bill(OWNER, id, 1), Err(Error::BillAlreadyPaid));
}

#[test]
fn test_get_unpaid_bills_filters_by_owner_in_id_order() {
    let mut bills = BillPayments::new();
    let a = bills.create_bill(OWNER, "A".to_string(), 10, 100, false, 0, 0).unwrap();
    let other = bills.create_bill(STRANGER, "B".to_string(), 20, 100, false, 0, 0).unwrap();
    let c = bills.create_bill(OWNER, "C".to_string(), 30, 100, false, 0, 0).unwrap();
    bills.pay_bill(OWNER, a, 5).unwrap();

    let unpaid = bills.get_unpaid_bills(OWNER);
    assert_eq!(unpaid.len(), 1);
    assert_eq!(unpaid[0].id, c);

    let _ = other;
}

#[test]
fn test_get_overdue_bills_is_strictly_past_due() {
    let mut bills = BillPayments::new();
    let due_now = bills.create_bill(OWNER, "Now".to_string(), 10, 100, false, 0, 0).unwrap();
    let late = bills.create_bill(STRANGER, "Late".to_string(), 20, 99, false, 0, 0).unwrap();

    // a bill due exactly now is not yet overdue; any owner's late bill is
    let overdue = bills.get_overdue_bills(100);
    assert_eq!(overdue.len(), 1);
    assert_eq!(overdue[0].id, late);

    let _ = due_now;
}

#[test]
fn test_get_total_unpaid_sums_owner_amounts() {
    let mut bills = BillPayments::new();
    bills.create_bill(OWNER, "A".to_string(), 100, 100, false, 0, 0).unwrap();
    bills.create_bill(OWNER, "B".to_string(), 200, 100, false, 0, 0).unwrap();
    let paid = bills.create_bill(OWNER, "C".to_string(), 1000, 100, false, 0, 0).unwrap();
    bills.create_bill(STRANGER, "D".to_string(), 5000, 100, false, 0, 0).unwrap();
    bills.pay_bill(OWNER, paid, 0).unwrap();

    assert_eq!(bills.get_total_unpaid(OWNER), 300);
    assert_eq!(bills.get_total_unpaid(STRANGER), 5000);
    assert_eq!(bills.get_total_unpaid(42), 0);
}

#[test]
fn test_cancel_bill() {
    let mut bills = BillPayments::new();
    assert_eq!(bills.cancel_bill(1), Err(Error::BillNotFound));

    let id = bills.create_bill(OWNER, "Gone".to_string(), 10, 100, false, 0, 0).unwrap();
    bills.cancel_bill(id).unwrap();
    assert!(bills.get_bill(id).is_none());
    assert_eq!(bills.cancel_bill(id), Err(Error::BillNotFound));

    // the cancelled id is never reused
    let next = bills.create_bill(OWNER, "New".to_string(), 10, 100, false, 0, 0).unwrap();
    assert_eq!(next, 2);
}

#[test]
fn test_get_all_bills_includes_paid_ones() {
    let mut bills = BillPayments::new();
    let a = bills.create_bill(OWNER, "A".to_string(), 10, 100, false, 0, 0).unwrap();
    let b = bills.create_bill(STRANGER, "B".to_string(), 20, 100, false, 0, 0).unwrap();
    bills.pay_bill(OWNER, a, 0).unwrap();

    let all = bills.get_all_bills();
    assert_eq!(all.len(), 2);
    assert_eq!(all[0].id, a);
    assert!(all[0].paid);
    assert_eq!(all[1].id, b);
}

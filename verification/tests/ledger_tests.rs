use xion_invoice::api::{
    execute, instantiate, query, ExecuteMsg, ExecuteReceipt, InstantiateMsg, QueryAnswer, QueryMsg,
};
use xion_invoice::identity::Identity;
use xion_invoice::ledger::Ledger;
use xion_invoice::model::{CoinValue, LedgerError, MessageContext};

fn id(text: &str) -> Identity {
    Identity::new(String::from(text))
}

fn coins(amounts: &[u128]) -> Vec<CoinValue> {
    amounts
        .iter()
        .map(|a| CoinValue {
            denom: String::from("uxion"),
            amount: *a,
        })
        .collect()
}

#[test]
fn create_assigns_consecutive_ids() {
    let mut ledger = Ledger::new();
    let a = id("alice");
    let b = id("bob");
    let c = id("carol");
    let r1 = ledger
        .create_invoice(&a, &b, 10, String::from("one"), 1)
        .unwrap();
    let r2 = ledger
        .create_invoice(&a, &c, 20, String::from("two"), 2)
        .unwrap();
    let r3 = ledger
        .create_invoice(&b, &a, 30, String::from("three"), 3)
        .unwrap();
    assert_eq!(r1.invoice_id, 1);
    assert_eq!(r2.invoice_id, 2);
    assert_eq!(r3.invoice_id, 3);
    assert_eq!(ledger.next_id, 4);
}

#[test]
fn self_invoice_rejected() {
    let mut ledger = Ledger::new();
    let a = id("alice");
    let r = ledger.create_invoice(&a, &a, 10, String::from("self"), 1);
    assert_eq!(r.unwrap_err(), LedgerError::SelfInvoice);
    // state unchanged: nothing stored, counter still at 1
    assert_eq!(ledger.next_id, 1);
    assert_eq!(
        ledger.query_invoice(1).unwrap_err(),
        LedgerError::NotFound
    );
    assert!(ledger.query_invoices_by_user(&a).is_empty());
}

#[test]
fn zero_amount_rejected() {
    let mut ledger = Ledger::new();
    let a = id("alice");
    let b = id("bob");
    let r = ledger.create_invoice(&a, &b, 0, String::from("free"), 1);
    assert_eq!(r.unwrap_err(), LedgerError::ZeroAmount);
    assert_eq!(ledger.next_id, 1);
    assert_eq!(
        ledger.query_invoice(1).unwrap_err(),
        LedgerError::NotFound
    );
}

#[test]
fn pay_nonexistent_not_found() {
    let mut ledger = Ledger::new();
    let ctx = MessageContext {
        sender: id("bob"),
        funds: coins(&[100]),
    };
    let r = ledger.pay_invoice(&ctx, 42);
    assert_eq!(r.unwrap_err(), LedgerError::NotFound);
}

#[test]
fn pay_twice_already_paid() {
    let mut ledger = Ledger::new();
    let a = id("alice");
    let b = id("bob");
    ledger
        .create_invoice(&a, &b, 100, String::from("svc"), 10)
        .unwrap();
    let ctx = MessageContext {
        sender: id("bob"),
        funds: coins(&[100]),
    };
    let first = ledger.pay_invoice(&ctx, 1).unwrap();
    assert_eq!(first.invoice_id, 1);
    assert_eq!(first.transfer.to.text, "alice");
    let second = ledger.pay_invoice(&ctx, 1);
    assert_eq!(second.unwrap_err(), LedgerError::AlreadyPaid);
    // still settled, and settled only once
    assert!(ledger.query_invoice(1).unwrap().is_paid);
}

#[test]
fn pay_by_non_recipient_unauthorized() {
    let mut ledger = Ledger::new();
    let a = id("alice");
    let b = id("bob");
    ledger
        .create_invoice(&a, &b, 100, String::from("svc"), 10)
        .unwrap();
    // the issuer cannot settle their own invoice, even with exact funds
    let issuer_ctx = MessageContext {
        sender: id("alice"),
        funds: coins(&[100]),
    };
    assert_eq!(
        ledger.pay_invoice(&issuer_ctx, 1).unwrap_err(),
        LedgerError::Unauthorized
    );
    // nor can a third party, whatever funds are attached
    let outsider_ctx = MessageContext {
        sender: id("carol"),
        funds: coins(&[]),
    };
    assert_eq!(
        ledger.pay_invoice(&outsider_ctx, 1).unwrap_err(),
        LedgerError::Unauthorized
    );
    assert!(!ledger.query_invoice(1).unwrap().is_paid);
}

#[test]
fn pay_wrong_funds_incorrect_payment() {
    let mut ledger = Ledger::new();
    let a = id("alice");
    let b = id("bob");
    ledger
        .create_invoice(&a, &b, 100, String::from("svc"), 10)
        .unwrap();
    // zero coins attached
    let none_ctx = MessageContext {
        sender: id("bob"),
        funds: coins(&[]),
    };
    assert_eq!(
        ledger.pay_invoice(&none_ctx, 1).unwrap_err(),
        LedgerError::IncorrectPayment
    );
    // two coins attached
    let two_ctx = MessageContext {
        sender: id("bob"),
        funds: coins(&[50, 50]),
    };
    assert_eq!(
        ledger.pay_invoice(&two_ctx, 1).unwrap_err(),
        LedgerError::IncorrectPayment
    );
    // one coin of the wrong amount
    let wrong_ctx = MessageContext {
        sender: id("bob"),
        funds: coins(&[99]),
    };
    assert_eq!(
        ledger.pay_invoice(&wrong_ctx, 1).unwrap_err(),
        LedgerError::IncorrectPayment
    );
    // all three rejections left the invoice unsettled
    assert!(!ledger.query_invoice(1).unwrap().is_paid);
}

#[test]
fn unknown_user_empty_list() {
    let mut ledger = Ledger::new();
    let a = id("alice");
    let b = id("bob");
    ledger
        .create_invoice(&a, &b, 10, String::from("one"), 1)
        .unwrap();
    // an empty sequence, not an error
    let nobody = id("nobody");
    assert!(ledger.query_invoices_by_user(&nobody).is_empty());
    // the recipient-side user never issued anything either
    assert!(ledger.query_invoices_by_user(&b).is_empty());
}

#[test]
fn create_pay_scenario() {
    let mut ledger = instantiate(InstantiateMsg {});
    let create_ctx = MessageContext {
        sender: id("alice"),
        funds: coins(&[]),
    };
    let msg = ExecuteMsg::CreateInvoice {
        recipient: String::from("bob"),
        amount: 100,
        description: String::from("svc"),
        due_date: 1000,
    };
    let receipt = execute(&mut ledger, &create_ctx, msg, Some(id("bob"))).unwrap();
    match receipt {
        ExecuteReceipt::Created(c) => {
            assert_eq!(c.invoice_id, 1);
            assert_eq!(c.recipient.text, "bob");
        }
        _ => panic!("expected a creation receipt"),
    }
    let answer = query(&ledger, QueryMsg::GetInvoice { invoice_id: 1 }, None).unwrap();
    match answer {
        QueryAnswer::Invoice(resp) => {
            assert_eq!(resp.id, 1);
            assert_eq!(resp.issuer, "alice");
            assert_eq!(resp.recipient, "bob");
            assert_eq!(resp.amount, 100);
            assert_eq!(resp.description, "svc");
            assert_eq!(resp.due_date, 1000);
            assert!(!resp.is_paid);
        }
        _ => panic!("expected a single invoice"),
    }
    let pay_ctx = MessageContext {
        sender: id("bob"),
        funds: coins(&[100]),
    };
    let paid = execute(
        &mut ledger,
        &pay_ctx,
        ExecuteMsg::PayInvoice { invoice_id: 1 },
        None,
    )
    .unwrap();
    match paid {
        ExecuteReceipt::Paid(p) => {
            assert_eq!(p.invoice_id, 1);
            assert_eq!(p.transfer.to.text, "alice");
            assert_eq!(p.transfer.funds.len(), 1);
            assert_eq!(p.transfer.funds[0].amount, 100);
            assert_eq!(p.transfer.funds[0].denom, "uxion");
        }
        _ => panic!("expected a payment receipt"),
    }
    assert!(ledger.query_invoice(1).unwrap().is_paid);
    let again = execute(
        &mut ledger,
        &pay_ctx,
        ExecuteMsg::PayInvoice { invoice_id: 1 },
        None,
    );
    assert_eq!(again.unwrap_err(), LedgerError::AlreadyPaid);
}

#[test]
fn user_index_keeps_creation_order() {
    let mut ledger = Ledger::new();
    let a = id("alice");
    let b = id("bob");
    let c = id("carol");
    ledger
        .create_invoice(&a, &b, 10, String::from("first"), 1)
        .unwrap();
    ledger
        .create_invoice(&c, &b, 20, String::from("other"), 2)
        .unwrap();
    ledger
        .create_invoice(&a, &c, 30, String::from("second"), 3)
        .unwrap();
    let of_a = ledger.query_invoices_by_user(&a);
    assert_eq!(of_a.len(), 2);
    assert_eq!(of_a[0].id, 1);
    assert_eq!(of_a[1].id, 3);
    assert_eq!(of_a[0].description, "first");
    assert_eq!(of_a[1].description, "second");
    let of_c = ledger.query_invoices_by_user(&c);
    assert_eq!(of_c.len(), 1);
    assert_eq!(of_c[0].id, 2);
}

#[test]
fn malformed_address_rejected() {
    let mut ledger = Ledger::new();
    let ctx = MessageContext {
        sender: id("alice"),
        funds: coins(&[]),
    };
    // the host validator refused the recipient text: no resolved identity
    let msg = ExecuteMsg::CreateInvoice {
        recipient: String::from("###"),
        amount: 10,
        description: String::from("svc"),
        due_date: 1,
    };
    let r = execute(&mut ledger, &ctx, msg, None);
    assert_eq!(r.unwrap_err(), LedgerError::InvalidAddress);
    assert_eq!(ledger.next_id, 1);
    // same for the user text of a lookup
    let q = query(
        &ledger,
        QueryMsg::GetInvoicesByUser {
            user: String::from("###"),
        },
        None,
    );
    assert_eq!(q.unwrap_err(), LedgerError::InvalidAddress);
}

#[test]
fn query_missing_invoice_not_found() {
    let ledger = Ledger::new();
    let r = query(&ledger, QueryMsg::GetInvoice { invoice_id: 7 }, None);
    assert_eq!(r.unwrap_err(), LedgerError::NotFound);
}

#[test]
fn error_messages_are_descriptive() {
    assert_eq!(
        LedgerError::SelfInvoice.message(),
        "Cannot create invoice for yourself"
    );
    assert_eq!(
        LedgerError::ZeroAmount.message(),
        "Amount must be greater than 0"
    );
    assert_eq!(LedgerError::AlreadyPaid.message(), "Invoice is already paid");
    assert_eq!(
        LedgerError::Unauthorized.message(),
        "Only the recipient can pay this invoice"
    );
    assert_eq!(
        LedgerError::IncorrectPayment.message(),
        "Incorrect payment amount"
    );
    assert_eq!(LedgerError::NotFound.message(), "Invoice not found");
    assert_eq!(LedgerError::InvalidAddress.message(), "Invalid address");
}

use vstd::prelude::*;
use crate::ledger::{
    Ledger, create_transition, lemma_ids_of_entries_found, pay_transition,
};
use crate::model::{CoinValue, CreateReceipt, LedgerError, PayReceipt};

verus! {

/// In a well-formed ledger the issued identifiers are exactly 1, 2, ... in
/// creation order: pairwise distinct, strictly increasing by 1, starting
/// at 1.
pub proof fn lemma_identifiers_consecutive(l: Ledger)
    requires
        l.wf(),
    ensures
        forall|k: int| 0 <= k < l.invoices@.len() ==> (#[trigger] l.invoices@[k]).id == k + 1,
        forall|k1: int, k2: int|
            0 <= k1 < k2 < l.invoices@.len() ==> (#[trigger] l.invoices@[k1]).id < (
            #[trigger] l.invoices@[k2]).id,
        l.invoices@.len() > 0 ==> l.invoices@[0].id == 1,
{
}

/// Each successful creation issues exactly the identifier after the
/// previously issued one — one more than the number of invoices stored so
/// far — and leaves every earlier identifier in place, so a run of
/// successful creations issues 1, 2, 3, ... with no repetition.
pub proof fn lemma_creation_issues_next_identifier(
    pre: Ledger,
    post: Ledger,
    issuer: Seq<char>,
    recipient: Seq<char>,
    amount: u128,
    description: Seq<char>,
    due_date: u64,
    receipt: CreateReceipt,
)
    requires
        pre.wf(),
        create_transition(pre, post, issuer, recipient, amount, description, due_date, Ok(receipt)),
    ensures
        receipt.invoice_id == pre.invoices@.len() + 1,
        post.invoices@.len() == pre.invoices@.len() + 1,
        post.invoices@.last().id == receipt.invoice_id,
        post.next_id == pre.next_id + 1,
        forall|k: int|
            0 <= k < pre.invoices@.len() ==> (#[trigger] post.invoices@[k]).id
                == pre.invoices@[k].id,
{
}

/// Creating an invoice for oneself is always rejected with `SelfInvoice`,
/// whatever the other inputs, and the ledger is left unchanged.
pub proof fn lemma_self_invoice_rejected(
    pre: Ledger,
    post: Ledger,
    party: Seq<char>,
    amount: u128,
    description: Seq<char>,
    due_date: u64,
    r: Result<CreateReceipt, LedgerError>,
)
    requires
        create_transition(pre, post, party, party, amount, description, due_date, r),
    ensures
        r == Err::<CreateReceipt, LedgerError>(LedgerError::SelfInvoice),
        post == pre,
{
}

/// Creating an invoice over amount zero is always rejected with
/// `ZeroAmount`, and the ledger is left unchanged.
pub proof fn lemma_zero_amount_rejected(
    pre: Ledger,
    post: Ledger,
    issuer: Seq<char>,
    recipient: Seq<char>,
    description: Seq<char>,
    due_date: u64,
    r: Result<CreateReceipt, LedgerError>,
)
    requires
        issuer != recipient,
        create_transition(pre, post, issuer, recipient, 0, description, due_date, r),
    ensures
        r == Err::<CreateReceipt, LedgerError>(LedgerError::ZeroAmount),
        post == pre,
{
}

/// Paying an identifier no invoice was ever issued under is always rejected
/// with `NotFound`, and the ledger is left unchanged.
pub proof fn lemma_pay_nonexistent_rejected(
    pre: Ledger,
    post: Ledger,
    sender: Seq<char>,
    funds: Seq<CoinValue>,
    invoice_id: u64,
    r: Result<PayReceipt, LedgerError>,
)
    requires
        !pre.has_invoice(invoice_id),
        pay_transition(pre, post, sender, funds, invoice_id, r),
    ensures
        r == Err::<PayReceipt, LedgerError>(LedgerError::NotFound),
        post == pre,
{
}

/// An invoice is settled at most once: after a successful payment the
/// record stands paid, and a second payment attempt on the same identifier
/// is rejected with `AlreadyPaid` — whoever sends it and whatever funds are
/// attached — leaving the ledger unchanged, so no second transfer
/// instruction is ever produced.
pub proof fn lemma_no_double_payment(
    pre: Ledger,
    mid: Ledger,
    post: Ledger,
    first_sender: Seq<char>,
    first_funds: Seq<CoinValue>,
    second_sender: Seq<char>,
    second_funds: Seq<CoinValue>,
    invoice_id: u64,
    receipt: PayReceipt,
    second_result: Result<PayReceipt, LedgerError>,
)
    requires
        pay_transition(pre, mid, first_sender, first_funds, invoice_id, Ok(receipt)),
        pay_transition(mid, post, second_sender, second_funds, invoice_id, second_result),
    ensures
        mid.invoice_at(invoice_id).is_paid,
        second_result == Err::<PayReceipt, LedgerError>(LedgerError::AlreadyPaid),
        post == mid,
{
    assert(pre.pay_error(first_sender, first_funds, invoice_id) is None);
    assert(mid.invoices@[invoice_id - 1].is_paid);
}

/// Only the invoice's designated recipient can settle it: anyone else is
/// rejected with `Unauthorized`, regardless of the funds attached, and the
/// ledger is left unchanged.
pub proof fn lemma_pay_wrong_sender_rejected(
    pre: Ledger,
    post: Ledger,
    sender: Seq<char>,
    funds: Seq<CoinValue>,
    invoice_id: u64,
    r: Result<PayReceipt, LedgerError>,
)
    requires
        pre.has_invoice(invoice_id),
        !pre.invoice_at(invoice_id).is_paid,
        pre.invoice_at(invoice_id).recipient@ != sender,
        pay_transition(pre, post, sender, funds, invoice_id, r),
    ensures
        r == Err::<PayReceipt, LedgerError>(LedgerError::Unauthorized),
        post == pre,
{
}

/// A payment whose attached funds are not exactly one coin of exactly the
/// invoiced amount — none, several, or one of the wrong amount — is
/// rejected with `IncorrectPayment`, and the ledger is left unchanged.
pub proof fn lemma_pay_wrong_funds_rejected(
    pre: Ledger,
    post: Ledger,
    sender: Seq<char>,
    funds: Seq<CoinValue>,
    invoice_id: u64,
    r: Result<PayReceipt, LedgerError>,
)
    requires
        pre.has_invoice(invoice_id),
        !pre.invoice_at(invoice_id).is_paid,
        pre.invoice_at(invoice_id).recipient@ == sender,
        !(funds.len() == 1 && funds[0].amount == pre.invoice_at(invoice_id).amount),
        pay_transition(pre, post, sender, funds, invoice_id, r),
    ensures
        r == Err::<PayReceipt, LedgerError>(LedgerError::IncorrectPayment),
        post == pre,
{
}

/// A user who never issued an invoice has nothing in the index: a lookup
/// for them answers the empty sequence, not an error.
pub proof fn lemma_unknown_user_has_nothing(l: Ledger, user: Seq<char>)
    requires
        l.wf(),
        forall|k: int| 0 <= k < l.invoices@.len() ==> (#[trigger] l.invoices@[k]).issuer@ != user,
    ensures
        l.ids_of(user).len() == 0,
{
    if l.ids_of(user).len() != 0 {
        lemma_ids_of_entries_found(l.user_index@, user);
        let i = choose|i: int|
            0 <= i < l.user_index@.len() && (#[trigger] l.user_index@[i]).user@ == user
                && l.user_index@[i].ids@ == l.ids_of(user);
        let id = l.user_index@[i].ids@[0];
        assert(l.has_invoice(id) && l.invoice_at(id).issuer@ == user);
        assert(l.invoices@[id - 1].issuer@ != user);
        assert(false);
    }
}

} // verus!

use vstd::prelude::*;
use crate::identity::Identity;
use crate::ledger::{Ledger, create_transition, pay_transition};
use crate::model::{InvoiceResponse, LedgerError, MessageContext, responds_to};

verus! {

/// The initialization payload. It carries nothing; initialization only sets
/// the sequence counter to 1. Ledger-identifying metadata (name, version)
/// is the host's bookkeeping, recorded outside the ledger itself.
pub struct InstantiateMsg {}

/// The mutating commands a caller can issue.
pub enum ExecuteMsg {
    CreateInvoice { recipient: String, amount: u128, description: String, due_date: u64 },
    PayInvoice { invoice_id: u64 },
}

/// The read-only queries a caller can issue.
pub enum QueryMsg {
    GetInvoice { invoice_id: u64 },
    GetInvoicesByUser { user: String },
}

/// Confirmation of a successful command, ready for the host to render as
/// attributes and, for a payment, the one outgoing transfer instruction.
#[derive(Debug)]
pub enum ExecuteReceipt {
    Created(crate::model::CreateReceipt),
    Paid(crate::model::PayReceipt),
}

/// The answer to a query, ready for the host to encode.
#[derive(Debug)]
pub enum QueryAnswer {
    Invoice(InvoiceResponse),
    Invoices(Vec<InvoiceResponse>),
}

/// Initializes a fresh ledger: the sequence counter starts at 1, nothing is
/// stored. Must run exactly once, before any command; the host enforces
/// that, as it does the recording of contract metadata.
pub fn instantiate(_msg: InstantiateMsg) -> (l: Ledger)
    ensures
        l.wf(),
        l.next_id == 1,
        l.invoices@.len() == 0,
        l.user_index@.len() == 0,
{
    Ledger::new()
}

/// Dispatches a mutating command against the ledger.
///
/// Address-format validation is the host's capability, so for a
/// `CreateInvoice` command the host resolves the raw recipient text through
/// its validator first and passes the verdict in `resolved_recipient`:
/// `None` means the text is malformed and the command is rejected with
/// `InvalidAddress`, state untouched. For a `PayInvoice` command the verdict
/// is not consulted. The caller's own identity and attached funds arrive
/// through the execution context `ctx`, never through the payload.
pub fn execute(
    ledger: &mut Ledger,
    ctx: &MessageContext,
    msg: ExecuteMsg,
    resolved_recipient: Option<Identity>,
) -> (r: Result<ExecuteReceipt, LedgerError>)
    requires
        old(ledger).wf(),
        msg is CreateInvoice ==> old(ledger).next_id < u64::MAX,
    ensures
        final(ledger).wf(),
        match msg {
            ExecuteMsg::CreateInvoice { recipient: _, amount, description, due_date } => {
                match resolved_recipient {
                    None => r == Err::<ExecuteReceipt, LedgerError>(LedgerError::InvalidAddress)
                        && *final(ledger) == *old(ledger),
                    Some(rec) => {
                        &&& (r matches Ok(receipt) ==> (receipt matches ExecuteReceipt::Created(c)
                            && create_transition(
                            *old(ledger),
                            *final(ledger),
                            ctx.sender@,
                            rec@,
                            amount,
                            description@,
                            due_date,
                            Ok(c),
                        )))
                        &&& (r matches Err(e) ==> create_transition(
                            *old(ledger),
                            *final(ledger),
                            ctx.sender@,
                            rec@,
                            amount,
                            description@,
                            due_date,
                            Err(e),
                        ))
                    },
                }
            },
            ExecuteMsg::PayInvoice { invoice_id } => {
                &&& (r matches Ok(receipt) ==> (receipt matches ExecuteReceipt::Paid(p)
                    && pay_transition(
                    *old(ledger),
                    *final(ledger),
                    ctx.sender@,
                    ctx.funds@,
                    invoice_id,
                    Ok(p),
                )))
                &&& (r matches Err(e) ==> pay_transition(
                    *old(ledger),
                    *final(ledger),
                    ctx.sender@,
                    ctx.funds@,
                    invoice_id,
                    Err(e),
                ))
            },
        },
{
    match msg {
        ExecuteMsg::CreateInvoice { recipient: _, amount, description, due_date } => {
            match resolved_recipient {
                None => Err(LedgerError::InvalidAddress),
                Some(rec) => {
                    match ledger.create_invoice(&ctx.sender, &rec, amount, description, due_date) {
                        Ok(c) => Ok(ExecuteReceipt::Created(c)),
                        Err(e) => Err(e),
                    }
                },
            }
        },
        ExecuteMsg::PayInvoice { invoice_id } => {
            match ledger.pay_invoice(ctx, invoice_id) {
                Ok(p) => Ok(ExecuteReceipt::Paid(p)),
                Err(e) => Err(e),
            }
        },
    }
}

/// Dispatches a read-only query against the ledger.
///
/// For `GetInvoicesByUser` the host resolves the raw user text through its
/// validator first and passes the verdict in `resolved_user`: `None` means
/// the text is malformed and the query is rejected with `InvalidAddress`. A
/// well-formed user who never issued anything gets an empty list, not an
/// error. For `GetInvoice` the verdict is not consulted.
pub fn query(ledger: &Ledger, msg: QueryMsg, resolved_user: Option<Identity>) -> (r: Result<
    QueryAnswer,
    LedgerError,
>)
    requires
        ledger.wf(),
    ensures
        match msg {
            QueryMsg::GetInvoice { invoice_id } => {
                &&& ledger.has_invoice(invoice_id) ==> (r matches Ok(QueryAnswer::Invoice(resp))
                    && responds_to(resp, ledger.invoice_at(invoice_id)))
                &&& !ledger.has_invoice(invoice_id) ==> r == Err::<QueryAnswer, LedgerError>(
                    LedgerError::NotFound,
                )
            },
            QueryMsg::GetInvoicesByUser { user: _ } => {
                match resolved_user {
                    None => r == Err::<QueryAnswer, LedgerError>(LedgerError::InvalidAddress),
                    Some(u) => r matches Ok(QueryAnswer::Invoices(list)) && {
                        &&& list@.len() == ledger.ids_of(u@).len()
                        &&& forall|j: int|
                            0 <= j < list@.len() ==> responds_to(
                                #[trigger] list@[j],
                                ledger.invoice_at(ledger.ids_of(u@)[j]),
                            )
                        &&& forall|j: int|
                            0 <= j < list@.len() ==> #[trigger] list@[j].id == ledger.ids_of(u@)[j]
                    },
                }
            },
        },
{
    match msg {
        QueryMsg::GetInvoice { invoice_id } => {
            match ledger.query_invoice(invoice_id) {
                Ok(resp) => Ok(QueryAnswer::Invoice(resp)),
                Err(e) => Err(e),
            }
        },
        QueryMsg::GetInvoicesByUser { user: _ } => {
            match resolved_user {
                None => Err(LedgerError::InvalidAddress),
                Some(u) => Ok(QueryAnswer::Invoices(ledger.query_invoices_by_user(&u))),
            }
        },
    }
}

} // verus!

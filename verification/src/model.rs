use vstd::prelude::*;
use crate::identity::Identity;

verus! {

/// A stored invoice record: an obligation from `recipient` to `issuer`,
/// settled at most once. All fields but `is_paid` are immutable once the
/// record is created; `is_paid` starts `false` and moves to `true` exactly
/// once.
pub struct Invoice {
    pub id: u64,
    pub issuer: Identity,
    pub recipient: Identity,
    pub amount: u128,
    pub description: String,
    pub due_date: u64,
    pub is_paid: bool,
}

/// The same invoice with `is_paid` set: the only change a payment makes to
/// the stored record.
pub open spec fn paid(inv: Invoice) -> Invoice {
    Invoice {
        id: inv.id,
        issuer: inv.issuer,
        recipient: inv.recipient,
        amount: inv.amount,
        description: inv.description,
        due_date: inv.due_date,
        is_paid: true,
    }
}

/// The reasons a ledger operation can be rejected. Every rejection leaves
/// the ledger exactly as it was.
#[derive(Clone, Copy, Debug, PartialEq, Eq, Structural)]
pub enum LedgerError {
    /// Supplied text does not resolve to a well-formed party identity.
    InvalidAddress,
    /// Issuer and recipient resolve to the same identity.
    SelfInvoice,
    /// Invoice amount is not strictly positive.
    ZeroAmount,
    /// Referenced invoice identifier has no record.
    NotFound,
    /// Payment attempted on a settled invoice.
    AlreadyPaid,
    /// Payer is not the invoice's designated recipient.
    Unauthorized,
    /// Attached funds' count or amount does not exactly match the invoice.
    IncorrectPayment,
}

impl LedgerError {
    /// A descriptive message for the caller-facing rejection.
    pub fn message(&self) -> (r: &'static str)
        ensures
            *self is InvalidAddress ==> r@ == "Invalid address"@,
            *self is SelfInvoice ==> r@ == "Cannot create invoice for yourself"@,
            *self is ZeroAmount ==> r@ == "Amount must be greater than 0"@,
            *self is NotFound ==> r@ == "Invoice not found"@,
            *self is AlreadyPaid ==> r@ == "Invoice is already paid"@,
            *self is Unauthorized ==> r@ == "Only the recipient can pay this invoice"@,
            *self is IncorrectPayment ==> r@ == "Incorrect payment amount"@,
    {
        match self {
            LedgerError::InvalidAddress => "Invalid address",
            LedgerError::SelfInvoice => "Cannot create invoice for yourself",
            LedgerError::ZeroAmount => "Amount must be greater than 0",
            LedgerError::NotFound => "Invoice not found",
            LedgerError::AlreadyPaid => "Invoice is already paid",
            LedgerError::Unauthorized => "Only the recipient can pay this invoice",
            LedgerError::IncorrectPayment => "Incorrect payment amount",
        }
    }
}

/// One unit of attached value: a denomination and an amount.
#[derive(Debug)]
pub struct CoinValue {
    pub denom: String,
    pub amount: u128,
}

/// Two sequences of coins carry the same value: same length, and the coins
/// agree pairwise on denomination and amount.
pub open spec fn coins_match(a: Seq<CoinValue>, b: Seq<CoinValue>) -> bool {
    &&& a.len() == b.len()
    &&& forall|j: int| 0 <= j < a.len() ==> {
        &&& (#[trigger] a[j]).denom@ == b[j].denom@
        &&& a[j].amount == b[j].amount
    }
}

impl CoinValue {
    /// A fresh coin of the same denomination and amount.
    pub fn duplicate(&self) -> (r: CoinValue)
        ensures
            r.denom@ == self.denom@,
            r.amount == self.amount,
    {
        CoinValue { denom: self.denom.clone(), amount: self.amount }
    }
}

/// Copies a sequence of coins value for value.
pub fn duplicate_coins(coins: &Vec<CoinValue>) -> (r: Vec<CoinValue>)
    ensures
        coins_match(r@, coins@),
{
    let mut out: Vec<CoinValue> = Vec::new();
    let mut i: usize = 0;
    while i < coins.len()
        invariant
            i <= coins@.len(),
            out@.len() == i,
            forall|j: int| 0 <= j < i ==> {
                &&& (#[trigger] out@[j]).denom@ == coins@[j].denom@
                &&& out@[j].amount == coins@[j].amount
            },
        decreases coins@.len() - i,
    {
        out.push(coins[i].duplicate());
        i += 1;
    }
    out
}

/// What the caller attaching a command supplies through the execution
/// context: its own identity (never taken from the payload, so it cannot be
/// forged) and the funds sent along with the call.
pub struct MessageContext {
    pub sender: Identity,
    pub funds: Vec<CoinValue>,
}

/// An outgoing directive to move funds from the ledger's control to a named
/// party, emitted atomically with the state change that triggered it.
#[derive(Debug)]
pub struct TransferInstruction {
    pub to: Identity,
    pub funds: Vec<CoinValue>,
}

/// Confirmation of a successful creation: the identifier the ledger
/// assigned and the resolved recipient.
#[derive(Debug)]
pub struct CreateReceipt {
    pub invoice_id: u64,
    pub recipient: Identity,
}

/// Confirmation of a successful payment: the settled invoice and the one
/// transfer instruction forwarding the attached funds to the issuer.
#[derive(Debug)]
pub struct PayReceipt {
    pub invoice_id: u64,
    pub transfer: TransferInstruction,
}

/// An invoice projected into the caller-facing shape: party identities are
/// rendered as text, so stored identity values never leak to callers.
#[derive(Debug)]
pub struct InvoiceResponse {
    pub id: u64,
    pub issuer: String,
    pub recipient: String,
    pub amount: u128,
    pub description: String,
    pub due_date: u64,
    pub is_paid: bool,
}

/// The projection relation between a caller-facing response and a stored
/// invoice record: every field carried over, identities as their text.
pub open spec fn responds_to(r: InvoiceResponse, inv: Invoice) -> bool {
    &&& r.id == inv.id
    &&& r.issuer@ == inv.issuer@
    &&& r.recipient@ == inv.recipient@
    &&& r.amount == inv.amount
    &&& r.description@ == inv.description@
    &&& r.due_date == inv.due_date
    &&& r.is_paid == inv.is_paid
}

} // verus!

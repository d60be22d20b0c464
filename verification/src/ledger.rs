use vstd::prelude::*;
use crate::identity::Identity;
use crate::model::{
    CoinValue, CreateReceipt, Invoice, InvoiceResponse, LedgerError, MessageContext, PayReceipt,
    TransferInstruction, coins_match, duplicate_coins, paid, responds_to,
};

verus! {

/// One user-index entry: the ordered, append-only list of invoice
/// identifiers that `user` has issued.
pub struct UserEntry {
    pub user: Identity,
    pub ids: Vec<u64>,
}

/// The ids the first entry for `user` holds, or the empty sequence when no
/// entry exists. The index keeps at most one entry per user, so "first" is
/// "the" entry in a well-formed ledger.
pub open spec fn ids_of_entries(entries: Seq<UserEntry>, user: Seq<char>) -> Seq<u64>
    decreases entries.len(),
{
    if entries.len() == 0 {
        Seq::empty()
    } else if entries[0].user@ == user {
        entries[0].ids@
    } else {
        ids_of_entries(entries.skip(1), user)
    }
}

/// Scanning past a prefix without a match leaves the looked-up ids unchanged.
proof fn lemma_ids_of_entries_skip(entries: Seq<UserEntry>, user: Seq<char>, i: int)
    requires
        0 <= i <= entries.len(),
        forall|j: int| 0 <= j < i ==> (#[trigger] entries[j]).user@ != user,
    ensures
        ids_of_entries(entries, user) == ids_of_entries(entries.skip(i), user),
    decreases i,
{
    if i > 0 {
        assert(entries.skip(1).skip(i - 1) =~= entries.skip(i));
        assert(forall|j: int| 0 <= j < i - 1 ==> (#[trigger] entries.skip(1)[j]).user@ != user);
        lemma_ids_of_entries_skip(entries.skip(1), user, i - 1);
    } else {
        assert(entries.skip(0) =~= entries);
    }
}

/// When `entries[i]` is the first entry for its user, the lookup returns
/// exactly its ids.
proof fn lemma_ids_of_entries_at(entries: Seq<UserEntry>, user: Seq<char>, i: int)
    requires
        0 <= i < entries.len(),
        entries[i].user@ == user,
        forall|j: int| 0 <= j < i ==> (#[trigger] entries[j]).user@ != user,
    ensures
        ids_of_entries(entries, user) == entries[i].ids@,
{
    lemma_ids_of_entries_skip(entries, user, i);
    assert(entries.skip(i)[0] == entries[i]);
}

/// When no entry matches, the lookup returns the empty sequence.
proof fn lemma_ids_of_entries_absent(entries: Seq<UserEntry>, user: Seq<char>)
    requires
        forall|j: int| 0 <= j < entries.len() ==> (#[trigger] entries[j]).user@ != user,
    ensures
        ids_of_entries(entries, user) == Seq::<u64>::empty(),
{
    lemma_ids_of_entries_skip(entries, user, entries.len() as int);
}

/// A nonempty lookup names an actual entry.
pub(crate) proof fn lemma_ids_of_entries_found(entries: Seq<UserEntry>, user: Seq<char>)
    requires
        ids_of_entries(entries, user).len() != 0,
    ensures
        exists|i: int|
            0 <= i < entries.len() && (#[trigger] entries[i]).user@ == user
                && entries[i].ids@ == ids_of_entries(entries, user),
    decreases entries.len(),
{
    if entries[0].user@ == user {
        assert(entries[0].user@ == user && entries[0].ids@ == ids_of_entries(entries, user));
    } else {
        lemma_ids_of_entries_found(entries.skip(1), user);
        let i = choose|i: int|
            0 <= i < entries.skip(1).len() && (#[trigger] entries.skip(1)[i]).user@ == user
                && entries.skip(1)[i].ids@ == ids_of_entries(entries.skip(1), user);
        assert(entries[i + 1].user@ == user && entries[i + 1].ids@ == ids_of_entries(
            entries,
            user,
        ));
    }
}

/// Replacing one entry by another for the same user rewrites exactly that
/// user's ids, provided no earlier entry shadows it.
proof fn lemma_ids_of_entries_update(entries: Seq<UserEntry>, i: int, e: UserEntry, user: Seq<char>)
    requires
        0 <= i < entries.len(),
        e.user@ == entries[i].user@,
        forall|j: int| 0 <= j < i ==> (#[trigger] entries[j]).user@ != entries[i].user@,
    ensures
        ids_of_entries(entries.update(i, e), user) == if user == e.user@ {
            e.ids@
        } else {
            ids_of_entries(entries, user)
        },
    decreases i,
{
    let updated = entries.update(i, e);
    if i == 0 {
        if user == e.user@ {
            assert(updated[0] == e);
        } else {
            assert(updated.skip(1) =~= entries.skip(1));
        }
    } else {
        assert(updated[0] == entries[0]);
        if entries[0].user@ == user {
            // the first entry answers the lookup on both sides, and it is not the
            // updated one, since entries[0].user differs from entries[i].user
        } else {
            assert(updated.skip(1) =~= entries.skip(1).update(i - 1, e));
            assert(forall|j: int|
                0 <= j < i - 1 ==> (#[trigger] entries.skip(1)[j]).user@ != entries.skip(1)[i
                    - 1].user@);
            lemma_ids_of_entries_update(entries.skip(1), i - 1, e, user);
        }
    }
}

/// Appending an entry for a user the index does not yet hold adds exactly
/// that user's ids and leaves every other lookup unchanged.
proof fn lemma_ids_of_entries_push(entries: Seq<UserEntry>, e: UserEntry, user: Seq<char>)
    requires
        forall|j: int| 0 <= j < entries.len() ==> (#[trigger] entries[j]).user@ != e.user@,
    ensures
        ids_of_entries(entries.push(e), user) == if user == e.user@ {
            e.ids@
        } else {
            ids_of_entries(entries, user)
        },
    decreases entries.len(),
{
    let pushed = entries.push(e);
    if entries.len() == 0 {
        assert(pushed[0] == e);
        if user == e.user@ {
            assert(ids_of_entries(pushed, user) == e.ids@);
        } else {
            assert(pushed.skip(1) =~= Seq::<UserEntry>::empty());
            assert(ids_of_entries(pushed, user) == ids_of_entries(pushed.skip(1), user));
            assert(ids_of_entries(entries, user) == Seq::<u64>::empty());
        }
    } else {
        assert(pushed[0] == entries[0]);
        assert(entries[0].user@ != e.user@);
        if entries[0].user@ == user {
            assert(ids_of_entries(pushed, user) == entries[0].ids@);
            assert(ids_of_entries(entries, user) == entries[0].ids@);
        } else {
            assert(pushed.skip(1) =~= entries.skip(1).push(e));
            assert(forall|j: int|
                0 <= j < entries.skip(1).len() ==> (#[trigger] entries.skip(1)[j]).user@
                    != e.user@);
            lemma_ids_of_entries_push(entries.skip(1), e, user);
            assert(ids_of_entries(pushed, user) == ids_of_entries(
                entries.skip(1).push(e),
                user,
            ));
        }
    }
}

/// The whole persistent state of one deployed invoice ledger: the sequence
/// counter, the invoice table (the record with identifier `id` sits at
/// position `id - 1`), and the issuer-side user index.
pub struct Ledger {
    pub next_id: u64,
    pub invoices: Vec<Invoice>,
    pub user_index: Vec<UserEntry>,
}

impl Ledger {
    /// The counter equals one more than the number of invoices ever issued,
    /// so identifiers are handed out consecutively from 1 and never reused.
    pub open spec fn counter_wf(self) -> bool {
        &&& self.next_id == self.invoices@.len() + 1
        &&& forall|k: int|
            0 <= k < self.invoices@.len() ==> (#[trigger] self.invoices@[k]).id == k + 1
    }

    /// Every stored invoice satisfies the creation-time validation: the
    /// issuer differs from the recipient and the amount is strictly positive.
    pub open spec fn invoices_wf(self) -> bool {
        &&& forall|k: int|
            0 <= k < self.invoices@.len() ==> (#[trigger] self.invoices@[k]).issuer@
                != self.invoices@[k].recipient@
        &&& forall|k: int|
            0 <= k < self.invoices@.len() ==> (#[trigger] self.invoices@[k]).amount > 0
    }

    /// The index holds at most one entry per user.
    pub open spec fn index_distinct(self) -> bool {
        forall|i1: int, i2: int|
            0 <= i1 < i2 < self.user_index@.len() ==> (#[trigger] self.user_index@[i1]).user@
                != (#[trigger] self.user_index@[i2]).user@
    }

    /// Every id an entry lists is a stored invoice issued by that entry's
    /// user.
    pub open spec fn index_sound(self) -> bool {
        forall|i: int, j: int|
            0 <= i < self.user_index@.len() && 0 <= j < self.user_index@[i].ids@.len() ==> {
                let id = #[trigger] self.user_index@[i].ids@[j];
                &&& self.has_invoice(id)
                &&& self.invoice_at(id).issuer@ == self.user_index@[i].user@
            }
    }

    /// Within an entry the ids grow strictly, so the list reflects creation
    /// order and holds no duplicates.
    pub open spec fn index_ordered(self) -> bool {
        forall|i: int, j1: int, j2: int|
            0 <= i < self.user_index@.len() && 0 <= j1 < j2 < self.user_index@[i].ids@.len()
                ==> #[trigger] self.user_index@[i].ids@[j1]
                < #[trigger] self.user_index@[i].ids@[j2]
    }

    /// Every stored invoice is listed under its issuer.
    pub open spec fn index_complete(self) -> bool {
        forall|k: int|
            0 <= k < self.invoices@.len() ==> self.ids_of(
                (#[trigger] self.invoices@[k]).issuer@,
            ).contains((k + 1) as u64)
    }

    /// Well-formedness of the whole ledger; established at instantiation and
    /// preserved by every operation.
    pub open spec fn wf(self) -> bool {
        &&& self.counter_wf()
        &&& self.invoices_wf()
        &&& self.index_distinct()
        &&& self.index_sound()
        &&& self.index_ordered()
        &&& self.index_complete()
    }

    /// Whether an invoice with this identifier is stored.
    pub open spec fn has_invoice(self, id: u64) -> bool {
        1 <= id && id <= self.invoices@.len()
    }

    /// The stored invoice with this identifier.
    pub open spec fn invoice_at(self, id: u64) -> Invoice
        recommends
            self.has_invoice(id),
    {
        self.invoices@[id - 1]
    }

    /// The ordered ids the index lists for `user`; empty when the user never
    /// issued an invoice.
    pub open spec fn ids_of(self, user: Seq<char>) -> Seq<u64> {
        ids_of_entries(self.user_index@, user)
    }

    /// The rejection a payment attempt runs into, if any: the checks apply
    /// in this order, each short-circuiting the rest.
    pub open spec fn pay_error(
        self,
        sender: Seq<char>,
        funds: Seq<CoinValue>,
        invoice_id: u64,
    ) -> Option<LedgerError> {
        if !self.has_invoice(invoice_id) {
            Some(LedgerError::NotFound)
        } else if self.invoice_at(invoice_id).is_paid {
            Some(LedgerError::AlreadyPaid)
        } else if self.invoice_at(invoice_id).recipient@ != sender {
            Some(LedgerError::Unauthorized)
        } else if !(funds.len() == 1 && funds[0].amount == self.invoice_at(invoice_id).amount) {
            Some(LedgerError::IncorrectPayment)
        } else {
            None
        }
    }

    /// A fresh, empty ledger: the counter starts at 1, nothing is stored.
    pub fn new() -> (l: Ledger)
        ensures
            l.wf(),
            l.next_id == 1,
            l.invoices@.len() == 0,
            l.user_index@.len() == 0,
    {
        Ledger { next_id: 1, invoices: Vec::new(), user_index: Vec::new() }
    }

    /// The position of the index entry for `user`, if one exists; scanning
    /// confirms that no earlier entry matches.
    fn find_entry(&self, user: &Identity) -> (r: Option<usize>)
        ensures
            match r {
                Some(i) => {
                    &&& i < self.user_index@.len()
                    &&& self.user_index@[i as int].user@ == user@
                    &&& forall|j: int|
                        0 <= j < i ==> (#[trigger] self.user_index@[j]).user@ != user@
                },
                None => forall|j: int|
                    0 <= j < self.user_index@.len() ==> (#[trigger] self.user_index@[j]).user@
                        != user@,
            },
    {
        let mut i: usize = 0;
        while i < self.user_index.len()
            invariant
                i <= self.user_index@.len(),
                forall|j: int| 0 <= j < i ==> (#[trigger] self.user_index@[j]).user@ != user@,
            decreases self.user_index@.len() - i,
        {
            if self.user_index[i].user.same_as(user) {
                return Some(i);
            }
            i += 1;
        }
        None
    }

    /// Projects a stored record into the caller-facing response shape.
    fn project(inv: &Invoice) -> (r: InvoiceResponse)
        ensures
            responds_to(r, *inv),
    {
        InvoiceResponse {
            id: inv.id,
            issuer: inv.issuer.to_text(),
            recipient: inv.recipient.to_text(),
            amount: inv.amount,
            description: inv.description.clone(),
            due_date: inv.due_date,
            is_paid: inv.is_paid,
        }
    }

    /// Looks one invoice up and projects it; read-only. Fails with
    /// `NotFound` exactly when no invoice has the identifier.
    pub fn query_invoice(&self, invoice_id: u64) -> (r: Result<InvoiceResponse, LedgerError>)
        ensures
            self.has_invoice(invoice_id) ==> (r matches Ok(resp) && responds_to(
                resp,
                self.invoice_at(invoice_id),
            )),
            !self.has_invoice(invoice_id) ==> r == Err::<InvoiceResponse, LedgerError>(
                LedgerError::NotFound,
            ),
    {
        if invoice_id < 1 || invoice_id > self.invoices.len() as u64 {
            return Err(LedgerError::NotFound);
        }
        let idx: usize = (invoice_id - 1) as usize;
        Ok(Self::project(&self.invoices[idx]))
    }

    /// Projects every invoice the index lists for `user`, in index (that is,
    /// creation) order. A user who never issued anything gets the empty
    /// sequence, not an error; read-only.
    pub fn query_invoices_by_user(&self, user: &Identity) -> (r: Vec<InvoiceResponse>)
        requires
            self.wf(),
        ensures
            r@.len() == self.ids_of(user@).len(),
            forall|j: int|
                0 <= j < r@.len() ==> responds_to(
                    #[trigger] r@[j],
                    self.invoice_at(self.ids_of(user@)[j]),
                ),
            forall|j: int| 0 <= j < r@.len() ==> #[trigger] r@[j].id == self.ids_of(user@)[j],
    {
        let mut out: Vec<InvoiceResponse> = Vec::new();
        let entry_pos = match self.find_entry(user) {
            Some(i) => i,
            None => {
                proof {
                    lemma_ids_of_entries_absent(self.user_index@, user@);
                }
                return out;
            },
        };
        proof {
            lemma_ids_of_entries_at(self.user_index@, user@, entry_pos as int);
        }
        let n = self.user_index[entry_pos].ids.len();
        let mut j: usize = 0;
        while j < n
            invariant
                self.wf(),
                entry_pos < self.user_index@.len(),
                self.user_index@[entry_pos as int].ids@ == self.ids_of(user@),
                n == self.ids_of(user@).len(),
                j <= n,
                out@.len() == j,
                forall|j2: int|
                    0 <= j2 < j ==> responds_to(
                        #[trigger] out@[j2],
                        self.invoice_at(self.ids_of(user@)[j2]),
                    ),
            decreases n - j,
        {
            let id = self.user_index[entry_pos].ids[j];
            let m = self.invoices.len();
            proof {
                assert(id == self.user_index@[entry_pos as int].ids@[j as int]);
                assert(self.has_invoice(id));
                assert(1 <= id && id <= m as u64);
            }
            let idx: usize = (id - 1) as usize;
            out.push(Self::project(&self.invoices[idx]));
            j += 1;
        }
        proof {
            assert forall|j2: int|
                0 <= j2 < out@.len() implies #[trigger] out@[j2].id == self.ids_of(user@)[j2] by {
                let id = self.ids_of(user@)[j2];
                assert(responds_to(out@[j2], self.invoice_at(id)));
                assert(self.user_index@[entry_pos as int].ids@[j2] == id);
                assert(self.has_invoice(id));
                assert(self.invoices@[id - 1].id == id);
            }
        }
        out
    }

    /// Validates a creation command and, when it passes, stores a fresh
    /// unpaid invoice under the next identifier, appends that identifier to
    /// the issuer's index entry (creating the entry if absent), and advances
    /// the counter by one. Any rejection leaves the ledger untouched. The
    /// caller identity comes from the execution context, never from the
    /// payload; the recipient has already been resolved by the host's
    /// validator.
    pub fn create_invoice(
        &mut self,
        issuer: &Identity,
        recipient: &Identity,
        amount: u128,
        description: String,
        due_date: u64,
    ) -> (r: Result<CreateReceipt, LedgerError>)
        requires
            old(self).wf(),
            old(self).next_id < u64::MAX,
        ensures
            final(self).wf(),
            create_transition(
                *old(self),
                *final(self),
                issuer@,
                recipient@,
                amount,
                description@,
                due_date,
                r,
            ),
    {
        if recipient.same_as(issuer) {
            return Err(LedgerError::SelfInvoice);
        }
        if amount == 0 {
            return Err(LedgerError::ZeroAmount);
        }
        let ghost pre = *old(self);
        let id = self.next_id;
        let invoice = Invoice {
            id,
            issuer: issuer.duplicate(),
            recipient: recipient.duplicate(),
            amount,
            description,
            due_date,
            is_paid: false,
        };
        let ghost inv_snapshot = invoice;
        self.invoices.push(invoice);
        match self.find_entry(issuer) {
            Some(i) => {
                self.user_index[i].ids.push(id);
                proof {
                    let e2 = self.user_index@[i as int];
                    assert(e2.user@ == pre.user_index@[i as int].user@);
                    assert(e2.ids@ == pre.user_index@[i as int].ids@.push(id));
                    assert(self.user_index@ =~= pre.user_index@.update(i as int, e2));
                    assert forall|u: Seq<char>|
                        #[trigger] ids_of_entries(self.user_index@, u) == (if u == issuer@ {
                            e2.ids@
                        } else {
                            ids_of_entries(pre.user_index@, u)
                        }) by {
                        lemma_ids_of_entries_update(pre.user_index@, i as int, e2, u);
                    }
                    lemma_ids_of_entries_at(pre.user_index@, issuer@, i as int);
                    assert forall|i1: int, i2: int|
                        0 <= i1 < i2 < self.user_index@.len() implies (
                    #[trigger] self.user_index@[i1]).user@ != (
                    #[trigger] self.user_index@[i2]).user@ by {
                        assert(self.user_index@[i1].user@ == pre.user_index@[i1].user@);
                        assert(self.user_index@[i2].user@ == pre.user_index@[i2].user@);
                    }
                    assert forall|i2: int| 0 <= i2 < self.user_index@.len() implies {
                        let e = #[trigger] self.user_index@[i2];
                        ||| (e.user@ == issuer@ && e.ids@ == pre.ids_of(issuer@).push(id))
                        ||| (exists|i0: int|
                            0 <= i0 < pre.user_index@.len() && pre.user_index@[i0] == e)
                    } by {
                        if i2 != i as int {
                            assert(pre.user_index@[i2] == self.user_index@[i2]);
                        }
                    }
                }
            },
            None => {
                let mut ids: Vec<u64> = Vec::new();
                ids.push(id);
                self.user_index.push(UserEntry { user: issuer.duplicate(), ids });
                proof {
                    let e2 = self.user_index@.last();
                    assert(self.user_index@ =~= pre.user_index@.push(e2));
                    assert(e2.user@ == issuer@);
                    assert forall|u: Seq<char>|
                        #[trigger] ids_of_entries(self.user_index@, u) == (if u == issuer@ {
                            e2.ids@
                        } else {
                            ids_of_entries(pre.user_index@, u)
                        }) by {
                        lemma_ids_of_entries_push(pre.user_index@, e2, u);
                    }
                    lemma_ids_of_entries_absent(pre.user_index@, issuer@);
                    assert(e2.ids@ =~= pre.ids_of(issuer@).push(id));
                    assert forall|i1: int, i2: int|
                        0 <= i1 < i2 < self.user_index@.len() implies (
                    #[trigger] self.user_index@[i1]).user@ != (
                    #[trigger] self.user_index@[i2]).user@ by {
                        assert(self.user_index@[i1] == pre.user_index@[i1]);
                        if i2 < pre.user_index@.len() {
                            assert(self.user_index@[i2] == pre.user_index@[i2]);
                        } else {
                            assert(self.user_index@[i2].user@ == issuer@);
                            assert(pre.user_index@[i1].user@ != issuer@);
                        }
                    }
                    assert forall|i2: int| 0 <= i2 < self.user_index@.len() implies {
                        let e = #[trigger] self.user_index@[i2];
                        ||| (e.user@ == issuer@ && e.ids@ == pre.ids_of(issuer@).push(id))
                        ||| (exists|i0: int|
                            0 <= i0 < pre.user_index@.len() && pre.user_index@[i0] == e)
                    } by {
                        if i2 < pre.user_index@.len() {
                            assert(pre.user_index@[i2] == self.user_index@[i2]);
                        }
                    }
                }
            },
        }
        self.next_id = id + 1;
        proof {
            self.lemma_wf_after_creation(pre, inv_snapshot, issuer@);
        }
        Ok(CreateReceipt { invoice_id: id, recipient: recipient.duplicate() })
    }

    /// Re-establishes well-formedness after a creation: the invoice table
    /// gained exactly `inv` at the end, the issuer's id list gained exactly
    /// `inv.id` at the end, every other index entry is a pre-existing one,
    /// and no other user's lookup moved.
    proof fn lemma_wf_after_creation(self, pre: Ledger, inv: Invoice, issuer: Seq<char>)
        requires
            pre.wf(),
            pre.next_id < u64::MAX,
            inv.id == pre.next_id,
            inv.issuer@ == issuer,
            inv.issuer@ != inv.recipient@,
            inv.amount > 0,
            self.invoices@ == pre.invoices@.push(inv),
            self.next_id == pre.next_id + 1,
            self.ids_of(issuer) == pre.ids_of(issuer).push(inv.id),
            forall|u: Seq<char>| u != issuer ==> #[trigger] self.ids_of(u) == pre.ids_of(u),
            self.index_distinct(),
            forall|i: int|
                0 <= i < self.user_index@.len() ==> {
                    let e = #[trigger] self.user_index@[i];
                    ||| (e.user@ == issuer && e.ids@ == pre.ids_of(issuer).push(inv.id))
                    ||| (exists|i0: int|
                        0 <= i0 < pre.user_index@.len() && pre.user_index@[i0] == e)
                },
        ensures
            self.wf(),
    {
        let prelen = pre.invoices@.len() as int;
        // the prefix of the invoice table is untouched, so lookups below the
        // new identifier answer as before
        assert(forall|k: int| 0 <= k < prelen ==> self.invoices@[k] == pre.invoices@[k]);
        assert(self.invoices@[prelen] == inv);
        assert(self.counter_wf());
        assert(self.invoices_wf());
        // the ids a pre entry for the issuer holds are exactly the issuer's
        // pre lookup
        if pre.ids_of(issuer).len() != 0 {
            lemma_ids_of_entries_found(pre.user_index@, issuer);
        }
        assert forall|i: int, j: int|
            0 <= i < self.user_index@.len() && 0 <= j
                < self.user_index@[i].ids@.len() implies {
            let id = #[trigger] self.user_index@[i].ids@[j];
            &&& self.has_invoice(id)
            &&& self.invoice_at(id).issuer@ == self.user_index@[i].user@
        } by {
            let e = self.user_index@[i];
            let id = e.ids@[j];
            if e.user@ == issuer && e.ids@ == pre.ids_of(issuer).push(inv.id) {
                if j < e.ids@.len() - 1 {
                    // an id from the issuer's old list, which some pre entry held
                    let i0 = choose|i0: int|
                        0 <= i0 < pre.user_index@.len() && (#[trigger] pre.user_index@[i0]).user@
                            == issuer && pre.user_index@[i0].ids@ == pre.ids_of(issuer);
                    assert(pre.user_index@[i0].ids@[j] == id);
                    assert(pre.has_invoice(id) && pre.invoice_at(id).issuer@ == issuer);
                } else {
                    assert(id == inv.id);
                }
            } else {
                let i0 = choose|i0: int|
                    0 <= i0 < pre.user_index@.len() && pre.user_index@[i0] == e;
                assert(pre.user_index@[i0].ids@[j] == id);
                assert(pre.has_invoice(id) && pre.invoice_at(id).issuer@ == e.user@);
            }
        }
        assert(self.index_sound());
        assert forall|i: int, j1: int, j2: int|
            0 <= i < self.user_index@.len() && 0 <= j1 < j2
                < self.user_index@[i].ids@.len() implies self.user_index@[i].ids@[j1]
            < self.user_index@[i].ids@[j2] by {
            let e = self.user_index@[i];
            if e.user@ == issuer && e.ids@ == pre.ids_of(issuer).push(inv.id) {
                let pids = pre.ids_of(issuer);
                if pids.len() != 0 {
                    let i0 = choose|i0: int|
                        0 <= i0 < pre.user_index@.len() && (#[trigger] pre.user_index@[i0]).user@
                            == issuer && pre.user_index@[i0].ids@ == pids;
                    if j2 < pids.len() {
                        assert(pre.user_index@[i0].ids@[j1] < pre.user_index@[i0].ids@[j2]);
                    } else {
                        // every old id names a stored pre invoice, so it is at
                        // most the old table length, below the new identifier
                        assert(pre.user_index@[i0].ids@[j1] == pids[j1]);
                        assert(pre.has_invoice(pids[j1]));
                        assert(e.ids@[j2] == inv.id);
                    }
                }
            } else {
                let i0 = choose|i0: int|
                    0 <= i0 < pre.user_index@.len() && pre.user_index@[i0] == e;
                assert(pre.user_index@[i0].ids@[j1] < pre.user_index@[i0].ids@[j2]);
            }
        }
        assert(self.index_ordered());
        assert forall|k: int| 0 <= k < self.invoices@.len() implies self.ids_of(
            (#[trigger] self.invoices@[k]).issuer@,
        ).contains((k + 1) as u64) by {
            if k < prelen {
                let u = pre.invoices@[k].issuer@;
                assert(pre.ids_of(u).contains((k + 1) as u64));
                let w = choose|w: int|
                    0 <= w < pre.ids_of(u).len() && pre.ids_of(u)[w] == (k + 1) as u64;
                if u == issuer {
                    assert(self.ids_of(u)[w] == (k + 1) as u64);
                } else {
                    assert(self.ids_of(u)[w] == (k + 1) as u64);
                }
            } else {
                let ids = self.ids_of(issuer);
                assert(ids[ids.len() - 1] == inv.id);
            }
        }
        assert(self.index_complete());
    }

    /// Validates a payment attempt and, when it passes, marks the invoice
    /// paid and hands back the one transfer instruction forwarding the
    /// attached funds to the issuer; the host emits the instruction
    /// atomically with the state change. Any rejection leaves the ledger
    /// untouched. The payer identity and the attached funds come from the
    /// execution context.
    pub fn pay_invoice(&mut self, ctx: &MessageContext, invoice_id: u64) -> (r: Result<
        PayReceipt,
        LedgerError,
    >)
        requires
            old(self).wf(),
        ensures
            final(self).wf(),
            pay_transition(*old(self), *final(self), ctx.sender@, ctx.funds@, invoice_id, r),
    {
        let m = self.invoices.len();
        if invoice_id < 1 || invoice_id > m as u64 {
            return Err(LedgerError::NotFound);
        }
        let idx: usize = (invoice_id - 1) as usize;
        if self.invoices[idx].is_paid {
            return Err(LedgerError::AlreadyPaid);
        }
        if !self.invoices[idx].recipient.same_as(&ctx.sender) {
            return Err(LedgerError::Unauthorized);
        }
        if ctx.funds.len() != 1 || ctx.funds[0].amount != self.invoices[idx].amount {
            return Err(LedgerError::IncorrectPayment);
        }
        let transfer = TransferInstruction {
            to: self.invoices[idx].issuer.duplicate(),
            funds: duplicate_coins(&ctx.funds),
        };
        self.invoices[idx].is_paid = true;
        proof {
            assert(self.invoices@ =~= old(self).invoices@.update(
                invoice_id - 1,
                paid(old(self).invoice_at(invoice_id)),
            ));
            self.lemma_wf_after_payment(*old(self), invoice_id);
        }
        Ok(PayReceipt { invoice_id, transfer })
    }

    /// Re-establishes well-formedness after a payment: the one invoice was
    /// replaced by its paid form, everything else stands as before.
    proof fn lemma_wf_after_payment(self, pre: Ledger, invoice_id: u64)
        requires
            pre.wf(),
            pre.has_invoice(invoice_id),
            self.invoices@ == pre.invoices@.update(invoice_id - 1, paid(pre.invoice_at(invoice_id))),
            self.user_index@ == pre.user_index@,
            self.next_id == pre.next_id,
        ensures
            self.wf(),
    {
        assert(self.invoices@.len() == pre.invoices@.len());
        assert forall|k: int| 0 <= k < self.invoices@.len() implies {
            let inv = #[trigger] self.invoices@[k];
            &&& inv.id == k + 1
            &&& inv.issuer@ == pre.invoices@[k].issuer@
            &&& inv.issuer@ != inv.recipient@
            &&& inv.amount > 0
        } by {
            if k == invoice_id - 1 {
                assert(self.invoices@[k] == paid(pre.invoice_at(invoice_id)));
            } else {
                assert(self.invoices@[k] == pre.invoices@[k]);
            }
        }
        assert(self.counter_wf());
        assert(self.invoices_wf());
        assert(self.index_distinct());
        assert forall|i: int, j: int|
            0 <= i < self.user_index@.len() && 0 <= j
                < self.user_index@[i].ids@.len() implies {
            let id = #[trigger] self.user_index@[i].ids@[j];
            &&& self.has_invoice(id)
            &&& self.invoice_at(id).issuer@ == self.user_index@[i].user@
        } by {
            assert(pre.user_index@[i].ids@[j] == self.user_index@[i].ids@[j]);
            let id = self.user_index@[i].ids@[j];
            assert(pre.has_invoice(id) && pre.invoice_at(id).issuer@ == pre.user_index@[i].user@);
        }
        assert(self.index_sound());
        assert(self.index_ordered());
        assert forall|k: int| 0 <= k < self.invoices@.len() implies self.ids_of(
            (#[trigger] self.invoices@[k]).issuer@,
        ).contains((k + 1) as u64) by {
            assert(self.invoices@[k].issuer@ == pre.invoices@[k].issuer@);
            assert(pre.ids_of(pre.invoices@[k].issuer@).contains((k + 1) as u64));
        }
        assert(self.index_complete());
    }
}

/// What a freshly created invoice record looks like.
pub open spec fn created_invoice(
    inv: Invoice,
    id: u64,
    issuer: Seq<char>,
    recipient: Seq<char>,
    amount: u128,
    description: Seq<char>,
    due_date: u64,
) -> bool {
    &&& inv.id == id
    &&& inv.issuer@ == issuer
    &&& inv.recipient@ == recipient
    &&& inv.amount == amount
    &&& inv.description@ == description
    &&& inv.due_date == due_date
    &&& inv.is_paid == false
}

/// The full meaning of one `CreateInvoice` step from ledger `pre` to ledger
/// `post` with result `r`: which inputs are rejected (leaving the state
/// untouched), and what a successful creation stores, returns, and appends
/// to the issuer's index, leaving every other user's index alone.
pub open spec fn create_transition(
    pre: Ledger,
    post: Ledger,
    issuer: Seq<char>,
    recipient: Seq<char>,
    amount: u128,
    description: Seq<char>,
    due_date: u64,
    r: Result<CreateReceipt, LedgerError>,
) -> bool {
    if recipient == issuer {
        r == Err::<CreateReceipt, LedgerError>(LedgerError::SelfInvoice) && post == pre
    } else if amount == 0 {
        r == Err::<CreateReceipt, LedgerError>(LedgerError::ZeroAmount) && post == pre
    } else {
        r matches Ok(receipt) && {
            &&& receipt.invoice_id == pre.next_id
            &&& receipt.recipient@ == recipient
            &&& post.next_id == pre.next_id + 1
            &&& post.invoices@.len() == pre.invoices@.len() + 1
            &&& forall|k: int|
                0 <= k < pre.invoices@.len() ==> post.invoices@[k] == pre.invoices@[k]
            &&& created_invoice(
                post.invoices@.last(),
                pre.next_id,
                issuer,
                recipient,
                amount,
                description,
                due_date,
            )
            &&& post.ids_of(issuer) == pre.ids_of(issuer).push(pre.next_id)
            &&& forall|u: Seq<char>| u != issuer ==> #[trigger] post.ids_of(u) == pre.ids_of(u)
        }
    }
}

/// The full meaning of one `PayInvoice` step from ledger `pre` to ledger
/// `post` with result `r`: every rejection leaves the state untouched, and
/// a successful payment marks exactly the one invoice paid and hands back
/// one transfer instruction moving the attached funds to the issuer.
pub open spec fn pay_transition(
    pre: Ledger,
    post: Ledger,
    sender: Seq<char>,
    funds: Seq<CoinValue>,
    invoice_id: u64,
    r: Result<PayReceipt, LedgerError>,
) -> bool {
    match pre.pay_error(sender, funds, invoice_id) {
        Some(e) => r == Err::<PayReceipt, LedgerError>(e) && post == pre,
        None => r matches Ok(receipt) && {
            &&& receipt.invoice_id == invoice_id
            &&& receipt.transfer.to@ == pre.invoice_at(invoice_id).issuer@
            &&& coins_match(receipt.transfer.funds@, funds)
            &&& post.invoices@ == pre.invoices@.update(
                invoice_id - 1,
                paid(pre.invoice_at(invoice_id)),
            )
            &&& post.user_index@ == pre.user_index@
            &&& post.next_id == pre.next_id
        },
    }
}

} // verus!

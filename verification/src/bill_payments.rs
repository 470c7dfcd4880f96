//! Bill tracking and payment: owners create one-off or recurring bills,
//! pay them, and query what is unpaid or overdue. Paying a recurring bill
//! spawns the next instance one cadence after its due date. Ids are
//! monotonically increasing and never reused; listing scans run in
//! ascending id order. The embedding host authenticates callers, reads the
//! clock, and publishes the event payloads declared here.

use vstd::prelude::*;

verus! {

/// Seconds in one day, the unit of bill cadences.
pub const BILL_SECONDS_PER_DAY: u64 = 86400;

/// A tracked bill. The owner is an external principal held only for
/// equality checks.
#[derive(Clone, Debug)]
pub struct Bill {
    /// Unique positive identifier, assigned at creation, never reused.
    pub id: u32,
    /// The external principal that created the bill.
    pub owner: u64,
    /// Display name of the bill.
    pub name: String,
    /// Amount to pay, in minor currency units; positive.
    pub amount: i128,
    /// Due date in epoch seconds.
    pub due_date: u64,
    /// Whether paying this bill spawns a successor.
    pub recurring: bool,
    /// Days between instances of a recurring bill; positive when
    /// recurring.
    pub frequency_days: u32,
    /// Whether the bill has been paid.
    pub paid: bool,
    /// Creation time, immutable afterwards.
    pub created_at: u64,
    /// Time of payment, once paid.
    pub paid_at: Option<u64>,
}

/// The mathematical model of a bill: its fields with the name as a
/// character sequence.
pub struct BillModel {
    pub id: u32,
    pub owner: u64,
    pub name: Seq<char>,
    pub amount: i128,
    pub due_date: u64,
    pub recurring: bool,
    pub frequency_days: u32,
    pub paid: bool,
    pub created_at: u64,
    pub paid_at: Option<u64>,
}

impl View for Bill {
    type V = BillModel;

    open spec fn view(&self) -> BillModel {
        BillModel {
            id: self.id,
            owner: self.owner,
            name: self.name@,
            amount: self.amount,
            due_date: self.due_date,
            recurring: self.recurring,
            frequency_days: self.frequency_days,
            paid: self.paid,
            created_at: self.created_at,
            paid_at: self.paid_at,
        }
    }
}

/// Errors of the bill operations. Every error is detected before any
/// mutation, so a failed call leaves the bills unchanged.
#[derive(Copy, Clone, Debug, Eq, PartialEq, PartialOrd, Ord, Structural)]
pub enum Error {
    /// No bill with the given id exists.
    BillNotFound,
    /// The bill is already marked paid.
    BillAlreadyPaid,
    /// The amount was zero or negative.
    InvalidAmount,
    /// A recurring bill was given a zero cadence.
    InvalidFrequency,
    /// The caller is not the bill's owner.
    Unauthorized,
}

/// Kind of audit-trail event the embedding host publishes after each
/// successful mutating call.
#[derive(Clone, Copy, Debug, PartialEq, Eq, Structural)]
pub enum BillEvent {
    Created,
    Paid,
}

/// Payload the host publishes when a bill is created.
#[derive(Clone, Debug)]
pub struct BillCreatedEvent {
    pub bill_id: u32,
    pub name: String,
    pub amount: i128,
    pub due_date: u64,
    pub recurring: bool,
    pub timestamp: u64,
}

/// Payload the host publishes when a bill is paid.
#[derive(Clone, Debug)]
pub struct BillPaidEvent {
    pub bill_id: u32,
    pub name: String,
    pub amount: i128,
    pub timestamp: u64,
}

/// Payload the host publishes when paying a recurring bill spawns its
/// successor.
#[derive(Clone, Debug)]
pub struct RecurringBillCreatedEvent {
    pub bill_id: u32,
    pub parent_bill_id: u32,
    pub name: String,
    pub amount: i128,
    pub due_date: u64,
    pub timestamp: u64,
}

/// Well-formedness of a stored bill: a positive id and amount, and a
/// positive cadence on a recurring bill.
pub open spec fn valid_bill(b: BillModel) -> bool {
    &&& b.id >= 1
    &&& b.amount > 0
    &&& (b.recurring ==> b.frequency_days > 0)
}

/// The record a successful creation writes: unpaid, created now.
pub open spec fn created_bill(
    id: u32,
    owner: u64,
    name: Seq<char>,
    amount: i128,
    due_date: u64,
    recurring: bool,
    frequency_days: u32,
    now: u64,
) -> BillModel {
    BillModel {
        id,
        owner,
        name,
        amount,
        due_date,
        recurring,
        frequency_days,
        paid: false,
        created_at: now,
        paid_at: None,
    }
}

/// A bill after payment at `now`: marked paid, everything else unchanged.
pub open spec fn paid_bill(b: BillModel, now: u64) -> BillModel {
    BillModel { paid: true, paid_at: Some(now), ..b }
}

/// The due date of a recurring bill's successor: one cadence past the
/// parent's due date, clamped to the largest representable time.
pub open spec fn successor_due_date(due_date: u64, frequency_days: u32) -> u64 {
    if due_date + frequency_days * (BILL_SECONDS_PER_DAY as int) <= u64::MAX {
        (due_date + frequency_days * (BILL_SECONDS_PER_DAY as int)) as u64
    } else {
        u64::MAX
    }
}

/// The successor paying a recurring bill spawns: the same owner, name,
/// amount and cadence, unpaid, due one cadence later, created now.
pub open spec fn successor_bill(b: BillModel, id: u32, now: u64) -> BillModel {
    BillModel {
        id,
        owner: b.owner,
        name: b.name,
        amount: b.amount,
        due_date: successor_due_date(b.due_date, b.frequency_days),
        recurring: true,
        frequency_days: b.frequency_days,
        paid: false,
        created_at: now,
        paid_at: None,
    }
}

/// Bills selected from `m` among the ids `1 ..= up_to`, in ascending id
/// order; the model of every listing scan.
pub open spec fn selected_bills(
    m: Map<u32, BillModel>,
    pred: spec_fn(BillModel) -> bool,
    up_to: int,
) -> Seq<BillModel>
    decreases up_to,
{
    if up_to <= 0 {
        Seq::empty()
    } else {
        let prefix = selected_bills(m, pred, up_to - 1);
        let id: u32 = up_to as u32;
        if m.dom().contains(id) && pred(m[id]) {
            prefix.push(m[id])
        } else {
            prefix
        }
    }
}

/// The unpaid bills of one owner among the ids `1 ..= up_to`, in
/// ascending id order.
pub open spec fn unpaid_bills_of(m: Map<u32, BillModel>, owner: u64, up_to: int) -> Seq<
    BillModel,
> {
    selected_bills(m, |b: BillModel| !b.paid && b.owner == owner, up_to)
}

/// The unpaid bills past their due date at `now` — strictly past, a bill
/// due exactly now is not yet overdue — in ascending id order.
pub open spec fn overdue_bills(m: Map<u32, BillModel>, now: u64, up_to: int) -> Seq<BillModel> {
    selected_bills(m, |b: BillModel| !b.paid && b.due_date < now, up_to)
}

/// Every bill among the ids `1 ..= up_to`, paid or not, in ascending id
/// order.
pub open spec fn all_bills(m: Map<u32, BillModel>, up_to: int) -> Seq<BillModel> {
    selected_bills(m, |b: BillModel| true, up_to)
}

/// The sum of the amounts of a sequence of bills, as an unbounded
/// integer.
pub open spec fn total_amount(s: Seq<BillModel>) -> int
    decreases s.len(),
{
    if s.len() == 0 {
        0
    } else {
        total_amount(s.drop_last()) + s.last().amount
    }
}

/// The models of a sequence of bills.
pub open spec fn bill_models(s: Seq<Bill>) -> Seq<BillModel> {
    s.map_values(|b: Bill| b@)
}

/// Copies a bill; the copy has the same model.
fn clone_bill(b: &Bill) -> (copy: Bill)
    ensures
        copy@ == b@,
{
    Bill {
        id: b.id,
        owner: b.owner,
        name: b.name.clone(),
        amount: b.amount,
        due_date: b.due_date,
        recurring: b.recurring,
        frequency_days: b.frequency_days,
        paid: b.paid,
        created_at: b.created_at,
        paid_at: b.paid_at,
    }
}

/// The bill ledger. Ids run from 1 to the number issued so far; a
/// cancelled bill leaves a permanent gap. Its view is the map from id to
/// bill model.
pub struct BillPayments {
    next_id: u32,
    slots: Vec<Option<Bill>>,
}

impl View for BillPayments {
    type V = Map<u32, BillModel>;

    closed spec fn view(&self) -> Map<u32, BillModel> {
        Map::new(
            |id: u32| 1 <= id && id <= self.slots@.len() && self.slots@[id - 1] is Some,
            |id: u32| self.slots@[id - 1]->Some_0@,
        )
    }
}

impl BillPayments {
    /// How many ids have ever been issued; ids are never reused.
    pub closed spec fn issued(self) -> u32 {
        self.next_id
    }

    /// The ledger's invariant: one slot per issued id, and every present
    /// bill is well formed and carries its own id.
    pub closed spec fn wf(self) -> bool {
        &&& self.slots@.len() == self.next_id
        &&& forall|i: int|
            0 <= i < self.slots@.len() && self.slots@[i] is Some ==> (
            #[trigger] self.slots@[i])->Some_0@.id == i + 1 && valid_bill(
                self.slots@[i]->Some_0@,
            )
    }

    /// Every id in the ledger was issued at some point, and every stored
    /// bill is well formed.
    pub proof fn lemma_stored_bills_valid(self)
        requires
            self.wf(),
        ensures
            forall|id: u32| self@.dom().contains(id) ==> 1 <= id && id <= self.issued(),
            forall|id: u32| #[trigger]
                self@.dom().contains(id) ==> self@[id].id == id && valid_bill(self@[id]),
    {
    }

    /// How many bill ids have been issued so far; the next creation takes
    /// the id one past this. Lets the embedding host check that the id
    /// space is not exhausted before creating or paying a recurring bill.
    pub fn issued_ids(&self) -> (count: u32)
        ensures
            count == self.issued(),
    {
        self.next_id
    }

    /// An empty ledger; no id has been issued.
    pub fn new() -> (bills: BillPayments)
        ensures
            bills.wf(),
            bills@ == Map::<u32, BillModel>::empty(),
            bills.issued() == 0,
    {
        let bills = BillPayments { next_id: 0, slots: Vec::new() };
        proof {
            assert(bills@ =~= Map::<u32, BillModel>::empty());
        }
        bills
    }

    /// Creates a bill for `owner` and returns its fresh id. The amount
    /// must be positive and a recurring bill needs a positive cadence; on
    /// a failing check nothing is stored.
    pub fn create_bill(
        &mut self,
        owner: u64,
        name: String,
        amount: i128,
        due_date: u64,
        recurring: bool,
        frequency_days: u32,
        now: u64,
    ) -> (result: Result<u32, Error>)
        requires
            old(self).wf(),
            old(self).issued() < u32::MAX,
        ensures
            final(self).wf(),
            amount <= 0 ==> result == Err::<u32, Error>(Error::InvalidAmount) && final(self)@
                == old(self)@ && final(self).issued() == old(self).issued(),
            amount > 0 && recurring && frequency_days == 0 ==> result == Err::<u32, Error>(
                Error::InvalidFrequency,
            ) && final(self)@ == old(self)@ && final(self).issued() == old(self).issued(),
            amount > 0 && !(recurring && frequency_days == 0) ==> {
                let id = (old(self).issued() + 1) as u32;
                &&& result == Ok::<u32, Error>(id)
                &&& !old(self)@.dom().contains(id)
                &&& final(self).issued() == id
                &&& final(self)@ == old(self)@.insert(
                    id,
                    created_bill(
                        id,
                        owner,
                        name@,
                        amount,
                        due_date,
                        recurring,
                        frequency_days,
                        now,
                    ),
                )
            },
    {
        if amount <= 0 {
            return Err(Error::InvalidAmount);
        }
        if recurring && frequency_days == 0 {
            return Err(Error::InvalidFrequency);
        }
        let id = self.next_id + 1;
        let bill = Bill {
            id,
            owner,
            name,
            amount,
            due_date,
            recurring,
            frequency_days,
            paid: false,
            created_at: now,
            paid_at: None,
        };
        let ghost before = self@;
        proof {
            self.lemma_stored_bills_valid();
        }
        self.slots.push(Some(bill));
        self.next_id = id;
        proof {
            assert(self@ =~= before.insert(
                id,
                created_bill(id, owner, self.slots@.last()->Some_0@.name, amount, due_date,
                    recurring, frequency_days, now),
            ));
        }
        Ok(id)
    }

    /// Pays a bill on behalf of its owner at `now`: the bill is marked
    /// paid, and paying a recurring bill also spawns its successor, due
    /// one cadence later, under a fresh id. A missing bill, a foreign
    /// caller, and an already-paid bill are each reported without any
    /// mutation.
    pub fn pay_bill(&mut self, caller: u64, bill_id: u32, now: u64) -> (result: Result<(), Error>)
        requires
            old(self).wf(),
            old(self)@.dom().contains(bill_id) && old(self)@[bill_id].recurring ==> old(
                self,
            ).issued() < u32::MAX,
        ensures
            final(self).wf(),
            !old(self)@.dom().contains(bill_id) ==> result == Err::<(), Error>(Error::BillNotFound)
                && final(self)@ == old(self)@ && final(self).issued() == old(self).issued(),
            ({
                let b = old(self)@[bill_id];
                &&& old(self)@.dom().contains(bill_id) ==> {
                    &&& b.owner != caller ==> result == Err::<(), Error>(Error::Unauthorized)
                        && final(self)@ == old(self)@ && final(self).issued() == old(self).issued()
                    &&& b.owner == caller && b.paid ==> result == Err::<(), Error>(
                        Error::BillAlreadyPaid,
                    ) && final(self)@ == old(self)@ && final(self).issued() == old(self).issued()
                    &&& b.owner == caller && !b.paid && !b.recurring ==> result == Ok::<
                        (),
                        Error,
                    >(()) && final(self)@ == old(self)@.insert(bill_id, paid_bill(b, now))
                        && final(self).issued() == old(self).issued()
                    &&& b.owner == caller && !b.paid && b.recurring ==> {
                        let succ_id = (old(self).issued() + 1) as u32;
                        &&& result == Ok::<(), Error>(())
                        &&& !old(self)@.dom().contains(succ_id)
                        &&& final(self).issued() == succ_id
                        &&& final(self)@ == old(self)@.insert(bill_id, paid_bill(b, now)).insert(
                            succ_id,
                            successor_bill(b, succ_id, now),
                        )
                    }
                }
            }),
    {
        if bill_id < 1 || bill_id > self.next_id {
            return Err(Error::BillNotFound);
        }
        let bill = match &self.slots[(bill_id - 1) as usize] {
            Some(b) => clone_bill(b),
            None => {
                return Err(Error::BillNotFound);
            },
        };
        if bill.owner != caller {
            return Err(Error::Unauthorized);
        }
        if bill.paid {
            return Err(Error::BillAlreadyPaid);
        }
        proof {
            self.lemma_stored_bills_valid();
        }
        let ghost before = self@;
        let recurring = bill.recurring;
        if recurring {
            let days_seconds = (bill.frequency_days as u64) * BILL_SECONDS_PER_DAY;
            let next_due = if bill.due_date <= u64::MAX - days_seconds {
                bill.due_date + days_seconds
            } else {
                u64::MAX
            };
            let succ_id = self.next_id + 1;
            let successor = Bill {
                id: succ_id,
                owner: bill.owner,
                name: bill.name.clone(),
                amount: bill.amount,
                due_date: next_due,
                recurring: true,
                frequency_days: bill.frequency_days,
                paid: false,
                created_at: now,
                paid_at: None,
            };
            proof {
                assert(successor@ == successor_bill(before[bill_id], succ_id, now));
            }
            self.slots.push(Some(successor));
            self.next_id = succ_id;
            proof {
                assert(self@ =~= before.insert(succ_id, successor_bill(before[bill_id], succ_id,
                    now)));
            }
        }
        let ghost mid = self@;
        let updated = Bill { paid: true, paid_at: Some(now), ..bill };
        self.slots.set((bill_id - 1) as usize, Some(updated));
        proof {
            assert(self@ =~= mid.insert(bill_id, paid_bill(before[bill_id], now)));
            if recurring {
                let succ_id = (old(self).issued() + 1) as u32;
                assert(self@ =~= before.insert(bill_id, paid_bill(before[bill_id], now)).insert(
                    succ_id,
                    successor_bill(before[bill_id], succ_id, now),
                ));
            }
        }
        Ok(())
    }

    /// Reads a bill by id.
    pub fn get_bill(&self, bill_id: u32) -> (result: Option<Bill>)
        requires
            self.wf(),
        ensures
            match result {
                Some(b) => self@.dom().contains(bill_id) && b@ == self@[bill_id],
                None => !self@.dom().contains(bill_id),
            },
    {
        if bill_id < 1 || bill_id > self.next_id {
            return None;
        }
        match &self.slots[(bill_id - 1) as usize] {
            Some(b) => Some(clone_bill(b)),
            None => None,
        }
    }

    /// Lists the unpaid bills of one owner, in ascending id order. Every
    /// listed bill has a positive amount.
    pub fn get_unpaid_bills(&self, owner: u64) -> (result: Vec<Bill>)
        requires
            self.wf(),
        ensures
            bill_models(result@) == unpaid_bills_of(self@, owner, self.issued() as int),
            forall|i: int| 0 <= i < result@.len() ==> (#[trigger] result@[i])@.amount > 0,
    {
        let mut result: Vec<Bill> = Vec::new();
        let mut i: u32 = 0;
        while i < self.next_id
            invariant
                self.wf(),
                i <= self.next_id,
                bill_models(result@) == unpaid_bills_of(self@, owner, i as int),
                forall|k: int| 0 <= k < result@.len() ==> (#[trigger] result@[k])@.amount > 0,
            decreases self.next_id - i,
        {
            let ghost id: u32 = (i + 1) as u32;
            let ghost prefix = result@;
            proof {
                assert(self@.dom().contains(id) <==> self.slots@[i as int] is Some);
                if self.slots@[i as int] is Some {
                    assert(self@[id] == self.slots@[i as int]->Some_0@);
                }
            }
            if let Some(b) = &self.slots[i as usize] {
                if !b.paid && b.owner == owner {
                    let copy = clone_bill(b);
                    result.push(copy);
                    proof {
                        assert(bill_models(result@) =~= bill_models(prefix).push(self@[id]));
                    }
                }
            }
            i = i + 1;
        }
        result
    }

    /// Lists every unpaid bill strictly past its due date at `now`, for
    /// all owners, in ascending id order.
    pub fn get_overdue_bills(&self, now: u64) -> (result: Vec<Bill>)
        requires
            self.wf(),
        ensures
            bill_models(result@) == overdue_bills(self@, now, self.issued() as int),
    {
        let mut result: Vec<Bill> = Vec::new();
        let mut i: u32 = 0;
        while i < self.next_id
            invariant
                self.wf(),
                i <= self.next_id,
                bill_models(result@) == overdue_bills(self@, now, i as int),
            decreases self.next_id - i,
        {
            let ghost id: u32 = (i + 1) as u32;
            let ghost prefix = result@;
            proof {
                assert(self@.dom().contains(id) <==> self.slots@[i as int] is Some);
                if self.slots@[i as int] is Some {
                    assert(self@[id] == self.slots@[i as int]->Some_0@);
                }
            }
            if let Some(b) = &self.slots[i as usize] {
                if !b.paid && b.due_date < now {
                    let copy = clone_bill(b);
                    result.push(copy);
                    proof {
                        assert(bill_models(result@) =~= bill_models(prefix).push(self@[id]));
                    }
                }
            }
            i = i + 1;
        }
        result
    }

    /// The sum of one owner's unpaid bill amounts, clamped to the largest
    /// representable amount. All amounts are positive, so the clamp only
    /// matters for an astronomically large ledger.
    pub fn get_total_unpaid(&self, owner: u64) -> (total: i128)
        requires
            self.wf(),
        ensures
            ({
                let exact = total_amount(unpaid_bills_of(self@, owner, self.issued() as int));
                total == if exact <= i128::MAX {
                    exact
                } else {
                    i128::MAX as int
                }
            }),
    {
        let unpaid = self.get_unpaid_bills(owner);
        let ghost bills = bill_models(unpaid@);
        let mut total: i128 = 0;
        let mut i: usize = 0;
        proof {
            assert(bills.take(0) =~= Seq::<BillModel>::empty());
        }
        while i < unpaid.len()
            invariant
                forall|k: int| 0 <= k < unpaid@.len() ==> (#[trigger] unpaid@[k])@.amount > 0,
                bills == bill_models(unpaid@),
                i <= unpaid@.len(),
                0 <= total,
                total == if total_amount(bills.take(i as int)) <= i128::MAX {
                    total_amount(bills.take(i as int))
                } else {
                    i128::MAX as int
                },
            decreases unpaid@.len() - i,
        {
            let amount = unpaid[i].amount;
            proof {
                assert(bills.take(i as int + 1).drop_last() =~= bills.take(i as int));
                assert(bills.take(i as int + 1).last() == unpaid@[i as int]@);
            }
            if amount > i128::MAX - total {
                total = i128::MAX;
            } else {
                total = total + amount;
            }
            i = i + 1;
        }
        proof {
            assert(bills.take(unpaid@.len() as int) =~= bills);
        }
        total
    }

    /// Deletes a bill by id, paid or not; no owner check is made. A
    /// missing id is reported and nothing changes.
    pub fn cancel_bill(&mut self, bill_id: u32) -> (result: Result<(), Error>)
        requires
            old(self).wf(),
        ensures
            final(self).wf(),
            final(self).issued() == old(self).issued(),
            !old(self)@.dom().contains(bill_id) ==> result == Err::<(), Error>(Error::BillNotFound)
                && final(self)@ == old(self)@,
            old(self)@.dom().contains(bill_id) ==> result == Ok::<(), Error>(()) && final(self)@
                == old(self)@.remove(bill_id),
    {
        if bill_id < 1 || bill_id > self.next_id {
            return Err(Error::BillNotFound);
        }
        let present = self.slots[(bill_id - 1) as usize].is_some();
        if !present {
            return Err(Error::BillNotFound);
        }
        let ghost before = self@;
        self.slots.set((bill_id - 1) as usize, None);
        proof {
            assert(self@ =~= before.remove(bill_id));
        }
        Ok(())
    }

    /// Lists every bill, paid or not, in ascending id order.
    pub fn get_all_bills(&self) -> (result: Vec<Bill>)
        requires
            self.wf(),
        ensures
            bill_models(result@) == all_bills(self@, self.issued() as int),
    {
        let mut result: Vec<Bill> = Vec::new();
        let mut i: u32 = 0;
        while i < self.next_id
            invariant
                self.wf(),
                i <= self.next_id,
                bill_models(result@) == all_bills(self@, i as int),
            decreases self.next_id - i,
        {
            let ghost id: u32 = (i + 1) as u32;
            let ghost prefix = result@;
            proof {
                assert(self@.dom().contains(id) <==> self.slots@[i as int] is Some);
                if self.slots@[i as int] is Some {
                    assert(self@[id] == self.slots@[i as int]->Some_0@);
                }
            }
            if let Some(b) = &self.slots[i as usize] {
                let copy = clone_bill(b);
                result.push(copy);
                proof {
                    assert(bill_models(result@) =~= bill_models(prefix).push(self@[id]));
                }
            }
            i = i + 1;
        }
        result
    }
}

} // verus!

//! Remittance analytics: a per-owner history of remittances with their
//! category splits, range queries over it, and aggregate reports. The
//! cross-service figures — savings goals, bill compliance, insurance
//! premiums — are served by other systems that the embedding host would
//! consult; the aggregators here report them as zero until wired up,
//! exactly as stated in their contracts.

use vstd::prelude::*;

verus! {

/// Financial breakdown of one remittance, by category.
#[derive(Clone, Copy, Debug, PartialEq, Eq, Structural)]
pub struct SpendingBreakdown {
    pub spending: i128,
    pub savings: i128,
    pub bills: i128,
    pub insurance: i128,
    pub total: i128,
}

/// Monthly financial report.
#[derive(Clone, Copy, Debug, PartialEq, Eq, Structural)]
pub struct MonthlyReport {
    pub month: u32,
    pub year: u32,
    pub total_remittances: i128,
    pub total_spending: i128,
    pub total_savings: i128,
    pub total_bills: i128,
    pub total_insurance: i128,
    pub savings_goals_progress: i128,
    pub bills_paid: u32,
    pub bills_unpaid: u32,
    pub insurance_premiums_paid: u32,
}

/// Trend analysis over a period named by the caller.
#[derive(Clone, Debug)]
pub struct TrendAnalysis {
    /// The period name the caller asked about.
    pub period: String,
    /// Positive means increasing, negative decreasing.
    pub spending_trend: i128,
    pub savings_trend: i128,
    pub bills_trend: i128,
    pub insurance_trend: i128,
}

/// Financial health score components, each on a 0 to 100 scale.
#[derive(Clone, Copy, Debug, PartialEq, Eq, Structural)]
pub struct HealthScore {
    pub overall_score: u32,
    pub savings_rate: u32,
    pub bill_compliance: u32,
    pub insurance_coverage: u32,
    pub goal_progress: u32,
}

/// One recorded remittance.
#[derive(Clone, Copy, Debug, PartialEq, Eq, Structural)]
pub struct RemittanceHistory {
    /// When the remittance was recorded.
    pub timestamp: u64,
    /// The total amount remitted.
    pub amount: i128,
    /// How the amount was split across categories.
    pub split: SpendingBreakdown,
}

/// The empty breakdown.
pub open spec fn zero_breakdown() -> SpendingBreakdown {
    SpendingBreakdown { spending: 0, savings: 0, bills: 0, insurance: 0, total: 0 }
}

/// Addition on amounts, clamped to the representable range.
pub open spec fn sat_add(a: i128, b: i128) -> i128 {
    if a + b > i128::MAX {
        i128::MAX
    } else if a + b < i128::MIN {
        i128::MIN
    } else {
        (a + b) as i128
    }
}

/// First-match lookup of an owner's recorded history; an owner never seen
/// has the empty history.
pub open spec fn history_lookup(
    entries: Seq<(u64, Vec<RemittanceHistory>)>,
    owner: u64,
) -> Seq<RemittanceHistory>
    decreases entries.len(),
{
    if entries.len() == 0 {
        Seq::empty()
    } else if entries[0].0 == owner {
        entries[0].1@
    } else {
        history_lookup(entries.skip(1), owner)
    }
}

/// The entries of a history whose timestamps fall in `start ..= end`, in
/// recorded order.
pub open spec fn range_filtered(s: Seq<RemittanceHistory>, start: u64, end: u64) -> Seq<
    RemittanceHistory,
>
    decreases s.len(),
{
    if s.len() == 0 {
        Seq::empty()
    } else {
        let prefix = range_filtered(s.drop_last(), start, end);
        if s.last().timestamp >= start && s.last().timestamp <= end {
            prefix.push(s.last())
        } else {
            prefix
        }
    }
}

/// The category totals of a sequence of remittances: each category summed
/// with clamped addition, and the remitted amounts summed under `total`.
pub open spec fn category_totals(s: Seq<RemittanceHistory>) -> SpendingBreakdown
    decreases s.len(),
{
    if s.len() == 0 {
        zero_breakdown()
    } else {
        let t = category_totals(s.drop_last());
        let e = s.last();
        SpendingBreakdown {
            spending: sat_add(t.spending, e.split.spending),
            savings: sat_add(t.savings, e.split.savings),
            bills: sat_add(t.bills, e.split.bills),
            insurance: sat_add(t.insurance, e.split.insurance),
            total: sat_add(t.total, e.amount),
        }
    }
}

/// The month-and-year a comparative analysis reaches back to: the
/// previous calendar month.
pub open spec fn previous_month(month: u32, year: u32) -> (u32, u32) {
    if month == 1 {
        (12u32, (year - 1) as u32)
    } else {
        ((month - 1) as u32, year)
    }
}

proof fn lemma_history_lookup_update(
    entries: Seq<(u64, Vec<RemittanceHistory>)>,
    i: int,
    entry: (u64, Vec<RemittanceHistory>),
    owner: u64,
)
    requires
        0 <= i < entries.len(),
        entries[i].0 == entry.0,
        forall|j: int| 0 <= j < i ==> (#[trigger] entries[j]).0 != entry.0,
    ensures
        history_lookup(entries.update(i, entry), owner) == if owner == entry.0 {
            entry.1@
        } else {
            history_lookup(entries, owner)
        },
    decreases i,
{
    if i == 0 {
        assert(entries.update(0, entry).skip(1) =~= entries.skip(1));
    } else {
        assert(entries.update(i, entry).skip(1) =~= entries.skip(1).update(i - 1, entry));
        lemma_history_lookup_update(entries.skip(1), i - 1, entry, owner);
    }
}

proof fn lemma_history_lookup_push(
    entries: Seq<(u64, Vec<RemittanceHistory>)>,
    entry: (u64, Vec<RemittanceHistory>),
    owner: u64,
)
    requires
        forall|j: int| 0 <= j < entries.len() ==> (#[trigger] entries[j]).0 != entry.0,
    ensures
        history_lookup(entries.push(entry), owner) == if owner == entry.0 {
            entry.1@
        } else {
            history_lookup(entries, owner)
        },
    decreases entries.len(),
{
    let pushed = entries.push(entry);
    if entries.len() == 0 {
        assert(pushed[0] == entry);
        assert(pushed.skip(1) =~= Seq::<(u64, Vec<RemittanceHistory>)>::empty());
        if owner == entry.0 {
            assert(history_lookup(pushed, owner) == entry.1@);
        } else {
            assert(history_lookup(pushed, owner) == history_lookup(pushed.skip(1), owner));
        }
    } else {
        assert(pushed[0] == entries[0]);
        assert(pushed.skip(1) =~= entries.skip(1).push(entry));
        lemma_history_lookup_push(entries.skip(1), entry, owner);
        if entries[0].0 == owner {
            assert(history_lookup(pushed, owner) == entries[0].1@);
            assert(history_lookup(entries, owner) == entries[0].1@);
        } else {
            assert(history_lookup(pushed, owner) == history_lookup(
                entries.skip(1).push(entry),
                owner,
            ));
            assert(history_lookup(entries, owner) == history_lookup(entries.skip(1), owner));
        }
    }
}

proof fn lemma_history_lookup_absent(entries: Seq<(u64, Vec<RemittanceHistory>)>, owner: u64)
    requires
        forall|j: int| 0 <= j < entries.len() ==> (#[trigger] entries[j]).0 != owner,
    ensures
        history_lookup(entries, owner) == Seq::<RemittanceHistory>::empty(),
    decreases entries.len(),
{
    if entries.len() > 0 {
        lemma_history_lookup_absent(entries.skip(1), owner);
    }
}

/// Copies a recorded history.
fn copy_history(v: &Vec<RemittanceHistory>) -> (copy: Vec<RemittanceHistory>)
    ensures
        copy@ == v@,
{
    let mut copy: Vec<RemittanceHistory> = Vec::new();
    let mut i: usize = 0;
    while i < v.len()
        invariant
            i <= v@.len(),
            copy@ == v@.take(i as int),
        decreases v@.len() - i,
    {
        copy.push(v[i]);
        proof {
            assert(v@.take(i as int).push(v@[i as int]) =~= v@.take(i as int + 1));
        }
        i = i + 1;
    }
    proof {
        assert(v@.take(v@.len() as int) =~= v@);
    }
    copy
}

/// Clamped addition on amounts.
fn sat_add_exec(a: i128, b: i128) -> (sum: i128)
    ensures
        sum == sat_add(a, b),
{
    if b >= 0 {
        if a > i128::MAX - b {
            i128::MAX
        } else {
            a + b
        }
    } else {
        if a < i128::MIN - b {
            i128::MIN
        } else {
            a + b
        }
    }
}

/// The analytics service: each owner's recorded remittance history.
pub struct Analytics {
    history: Vec<(u64, Vec<RemittanceHistory>)>,
}

impl Analytics {
    /// The analytics state invariant: one history entry per owner.
    pub closed spec fn wf(self) -> bool {
        forall|i: int, j: int|
            0 <= i < j < self.history@.len() ==> (#[trigger] self.history@[i]).0 != (
            #[trigger] self.history@[j]).0
    }

    /// The recorded history of one owner, oldest first; empty for an
    /// owner never seen.
    pub closed spec fn history_of(self, owner: u64) -> Seq<RemittanceHistory> {
        history_lookup(self.history@, owner)
    }

    /// A service with no history recorded.
    pub fn new() -> (analytics: Analytics)
        ensures
            analytics.wf(),
            forall|owner: u64| analytics.history_of(owner) == Seq::<RemittanceHistory>::empty(),
    {
        Analytics { history: Vec::new() }
    }

    /// Finds the history entry of an owner.
    fn find_history(&self, owner: u64) -> (index: Option<usize>)
        ensures
            match index {
                Some(i) => i < self.history@.len() && self.history@[i as int].0 == owner
                    && forall|j: int| 0 <= j < i ==> (#[trigger] self.history@[j]).0 != owner,
                None => forall|j: int|
                    0 <= j < self.history@.len() ==> (#[trigger] self.history@[j]).0 != owner,
            },
    {
        let mut i: usize = 0;
        while i < self.history.len()
            invariant
                i <= self.history@.len(),
                forall|j: int| 0 <= j < i ==> (#[trigger] self.history@[j]).0 != owner,
            decreases self.history@.len() - i,
        {
            if self.history[i].0 == owner {
                return Some(i);
            }
            i = i + 1;
        }
        None
    }

    /// Records one remittance for an owner at `now`, appending it to the
    /// owner's history.
    pub fn track_remittance(
        &mut self,
        owner: u64,
        amount: i128,
        split: SpendingBreakdown,
        now: u64,
    ) -> (result: bool)
        requires
            old(self).wf(),
        ensures
            final(self).wf(),
            result,
            final(self).history_of(owner) == old(self).history_of(owner).push(
                (RemittanceHistory { timestamp: now, amount, split }),
            ),
            forall|other: u64|
                other != owner ==> final(self).history_of(other) == old(self).history_of(other),
    {
        let entry = RemittanceHistory { timestamp: now, amount, split };
        let found = self.find_history(owner);
        let ghost entries = self.history@;
        match found {
            Some(i) => {
                let mut user_history = copy_history(&self.history[i].1);
                user_history.push(entry);
                proof {
                    assert(user_history@ == history_lookup(entries, owner).push(entry)) by {
                        lemma_history_lookup_update(entries, i as int, entries[i as int], owner);
                        assert(entries.update(i as int, entries[i as int]) =~= entries);
                    }
                }
                self.history.set(i, (owner, user_history));
                proof {
                    assert forall|o: u64|
                        #[trigger] history_lookup(self.history@, o) == if o == owner {
                            history_lookup(entries, owner).push(entry)
                        } else {
                            history_lookup(entries, o)
                        } by {
                        lemma_history_lookup_update(
                            entries,
                            i as int,
                            self.history@[i as int],
                            o,
                        );
                    }
                }
            },
            None => {
                let mut user_history: Vec<RemittanceHistory> = Vec::new();
                user_history.push(entry);
                proof {
                    lemma_history_lookup_absent(entries, owner);
                    assert(user_history@ =~= history_lookup(entries, owner).push(entry));
                }
                self.history.push((owner, user_history));
                proof {
                    assert forall|o: u64|
                        #[trigger] history_lookup(self.history@, o) == if o == owner {
                            history_lookup(entries, owner).push(entry)
                        } else {
                            history_lookup(entries, o)
                        } by {
                        lemma_history_lookup_push(entries, self.history@.last(), o);
                    }
                    assert(self.wf()) by {
                        assert(forall|j: int|
                            0 <= j < entries.len() ==> (#[trigger] self.history@[j]) == entries[
                            j]);
                    }
                }
            },
        }
        true
    }

    /// The remittances an owner recorded with timestamps in
    /// `start_timestamp ..= end_timestamp`, oldest first.
    pub fn get_remittance_history(
        &self,
        owner: u64,
        start_timestamp: u64,
        end_timestamp: u64,
    ) -> (result: Vec<RemittanceHistory>)
        requires
            self.wf(),
        ensures
            result@ == range_filtered(self.history_of(owner), start_timestamp, end_timestamp),
    {
        let found = self.find_history(owner);
        let mut result: Vec<RemittanceHistory> = Vec::new();
        match found {
            Some(idx) => {
                let ghost full = self.history@[idx as int].1@;
                proof {
                    lemma_history_lookup_update(
                        self.history@,
                        idx as int,
                        self.history@[idx as int],
                        owner,
                    );
                    assert(self.history@.update(idx as int, self.history@[idx as int]) =~= self
                        .history@);
                    assert(full.take(0) =~= Seq::<RemittanceHistory>::empty());
                }
                let entries = &self.history[idx].1;
                let mut i: usize = 0;
                while i < entries.len()
                    invariant
                        full == entries@,
                        i <= entries@.len(),
                        result@ == range_filtered(
                            full.take(i as int),
                            start_timestamp,
                            end_timestamp,
                        ),
                    decreases entries@.len() - i,
                {
                    let e = entries[i];
                    proof {
                        assert(full.take(i as int + 1).drop_last() =~= full.take(i as int));
                        assert(full.take(i as int + 1).last() == full[i as int]);
                    }
                    if e.timestamp >= start_timestamp && e.timestamp <= end_timestamp {
                        result.push(e);
                    }
                    i = i + 1;
                }
                proof {
                    assert(full.take(full.len() as int) =~= full);
                }
            },
            None => {
                proof {
                    lemma_history_lookup_absent(self.history@, owner);
                    assert(range_filtered(
                        self.history_of(owner),
                        start_timestamp,
                        end_timestamp,
                    ) =~= Seq::<RemittanceHistory>::empty());
                }
            },
        }
        result
    }

    /// Monthly spending-versus-saving breakdown. The per-month figures
    /// live with the other services of the platform; until the host wires
    /// them up this reports the empty breakdown.
    pub fn get_monthly_breakdown(&self, owner: u64, month: u32, year: u32) -> (result:
        SpendingBreakdown)
        ensures
            result == zero_breakdown(),
    {
        let _ = owner;
        let _ = month;
        let _ = year;
        SpendingBreakdown { spending: 0, savings: 0, bills: 0, insurance: 0, total: 0 }
    }

    /// Progress across an owner's savings goals, as a percentage. Served
    /// by the savings-goal service; reports zero until the host wires it
    /// up.
    pub fn get_savings_goal_progress(&self, owner: u64) -> (progress: u32)
        ensures
            progress == 0,
    {
        let _ = owner;
        0
    }

    /// An owner's bill payment compliance rate, as a percentage. Served
    /// by the bill payment service; reports zero until the host wires it
    /// up.
    pub fn get_bill_compliance_rate(&self, owner: u64) -> (rate: u32)
        ensures
            rate == 0,
    {
        let _ = owner;
        0
    }

    /// How many insurance premiums an owner paid on time. Served by the
    /// insurance service; reports zero until the host wires it up.
    pub fn get_insurance_payment_history(&self, owner: u64) -> (premiums: u32)
        ensures
            premiums == 0,
    {
        let _ = owner;
        0
    }

    /// The financial health score: the average of the four component
    /// rates. With every component served as zero, the overall score is
    /// zero.
    pub fn calculate_health_score(&self, owner: u64) -> (score: HealthScore)
        ensures
            score == (HealthScore {
                overall_score: 0,
                savings_rate: 0,
                bill_compliance: 0,
                insurance_coverage: 0,
                goal_progress: 0,
            }),
    {
        let savings_rate = self.get_savings_goal_progress(owner);
        let bill_compliance = self.get_bill_compliance_rate(owner);
        let insurance_coverage = self.get_insurance_payment_history(owner);
        let goal_progress = self.get_savings_goal_progress(owner);
        let overall_score = (savings_rate + bill_compliance + insurance_coverage + goal_progress)
            / 4;
        HealthScore {
            overall_score,
            savings_rate,
            bill_compliance,
            insurance_coverage,
            goal_progress,
        }
    }

    /// Trend analysis over the named period. Historical trend figures are
    /// not computed yet; every trend reports zero, under the period name
    /// the caller asked about.
    pub fn get_trend_analysis(&self, owner: u64, period: String, periods_back: u32) -> (result:
        TrendAnalysis)
        ensures
            result.period@ == period@,
            result.spending_trend == 0,
            result.savings_trend == 0,
            result.bills_trend == 0,
            result.insurance_trend == 0,
    {
        let _ = owner;
        let _ = periods_back;
        TrendAnalysis {
            period,
            spending_trend: 0,
            savings_trend: 0,
            bills_trend: 0,
            insurance_trend: 0,
        }
    }

    /// The monthly report for one owner: the breakdown totals together
    /// with the cross-service figures, all of which report zero until the
    /// host wires them up.
    pub fn generate_monthly_report(&self, owner: u64, month: u32, year: u32) -> (report:
        MonthlyReport)
        ensures
            report == (MonthlyReport {
                month,
                year,
                total_remittances: 0,
                total_spending: 0,
                total_savings: 0,
                total_bills: 0,
                total_insurance: 0,
                savings_goals_progress: 0,
                bills_paid: 0,
                bills_unpaid: 0,
                insurance_premiums_paid: 0,
            }),
    {
        let breakdown = self.get_monthly_breakdown(owner, month, year);
        MonthlyReport {
            month,
            year,
            total_remittances: breakdown.total,
            total_spending: breakdown.spending,
            total_savings: breakdown.savings,
            total_bills: breakdown.bills,
            total_insurance: breakdown.insurance,
            savings_goals_progress: self.get_savings_goal_progress(owner) as i128,
            bills_paid: 0,
            bills_unpaid: 0,
            insurance_premiums_paid: self.get_insurance_payment_history(owner),
        }
    }

    /// The category totals of an owner's remittances recorded with
    /// timestamps in `start_timestamp ..= end_timestamp`: each category
    /// summed with clamped addition, and the remitted amounts under
    /// `total`.
    pub fn get_category_analysis(
        &self,
        owner: u64,
        start_timestamp: u64,
        end_timestamp: u64,
    ) -> (result: SpendingBreakdown)
        requires
            self.wf(),
        ensures
            result == category_totals(
                range_filtered(self.history_of(owner), start_timestamp, end_timestamp),
            ),
    {
        let history = self.get_remittance_history(owner, start_timestamp, end_timestamp);
        let ghost entries = history@;
        let mut total = SpendingBreakdown { spending: 0, savings: 0, bills: 0, insurance: 0, total: 0 };
        let mut i: usize = 0;
        proof {
            assert(entries.take(0) =~= Seq::<RemittanceHistory>::empty());
        }
        while i < history.len()
            invariant
                entries == history@,
                i <= entries.len(),
                total == category_totals(entries.take(i as int)),
            decreases entries.len() - i,
        {
            let e = history[i];
            proof {
                assert(entries.take(i as int + 1).drop_last() =~= entries.take(i as int));
                assert(entries.take(i as int + 1).last() == entries[i as int]);
            }
            total = SpendingBreakdown {
                spending: sat_add_exec(total.spending, e.split.spending),
                savings: sat_add_exec(total.savings, e.split.savings),
                bills: sat_add_exec(total.bills, e.split.bills),
                insurance: sat_add_exec(total.insurance, e.split.insurance),
                total: sat_add_exec(total.total, e.amount),
            };
            i = i + 1;
        }
        proof {
            assert(entries.take(entries.len() as int) =~= entries);
        }
        total
    }

    /// The current month's report next to the previous month's. Reaching
    /// back from January needs a previous year to exist.
    pub fn get_comparative_analysis(&self, owner: u64, current_month: u32, current_year: u32) -> (result: (
        MonthlyReport,
        Option<MonthlyReport>,
    ))
        requires
            current_month >= 1,
            current_month == 1 ==> current_year >= 1,
        ensures
            result.0.month == current_month && result.0.year == current_year,
            result.1 matches Some(previous) && (previous.month, previous.year) == previous_month(
                current_month,
                current_year,
            ),
    {
        let current = self.generate_monthly_report(owner, current_month, current_year);
        let (prev_month, prev_year) = if current_month == 1 {
            (12, current_year - 1)
        } else {
            (current_month - 1, current_year)
        };
        let previous = self.generate_monthly_report(owner, prev_month, prev_year);
        (current, Some(previous))
    }
}

} // verus!

//! The period reconciler: for a target period, plans one synthesized
//! contribution for every active member that has none, copying the member's
//! most recent prior record or falling back to zero amounts.

use vstd::prelude::*;
use crate::models::{Contribution, Member};
use crate::text::str_eq;
use vstd::string::StringExecFns;

verus! {

/// A stored contribution fact, as the reconciler reads and plans it.
#[derive(Clone, Debug, PartialEq, Eq)]
pub struct ContributionRecord {
    pub member_id: i64,
    pub period_year: i32,
    pub period_month: i32,
    pub employee_basic: String,
    pub employee_additional: String,
    pub employer_basic: String,
    pub employer_additional: String,
    pub reduced_basic_flag: String,
    /// Provenance tag: `manual` or `prefilled`.
    pub source: String,
}

/// Record `a` belongs to a strictly later period than record `b`.
pub open spec fn later(a: ContributionRecord, b: ContributionRecord) -> bool {
    a.period_year > b.period_year || (a.period_year == b.period_year && a.period_month
        > b.period_month)
}

/// Some record of `rows` belongs to `member_id` at period (`y`, `m`).
pub open spec fn has_record(rows: Seq<ContributionRecord>, member_id: i64, y: int, m: int) -> bool {
    exists|i: int|
        0 <= i < rows.len() && rows[i].member_id == member_id && #[trigger] rows[i].period_year
            == y && rows[i].period_month == m
}

/// A member counts as active for reconciliation.
pub open spec fn member_active(m: Member) -> bool {
    m.status@ == "active"@
}

/// Member `m` is active and still has no record at the target period.
pub open spec fn needs_fill(m: Member, rows: Seq<ContributionRecord>, y: int, mo: int) -> bool {
    member_active(m) && !has_record(rows, m.id, y, mo)
}

/// The most recent record of `member_id` in `rows`, ordered by
/// (year desc, month desc); an earlier row wins a tie.
pub open spec fn latest_prior(rows: Seq<ContributionRecord>, member_id: i64) -> Option<
    ContributionRecord,
>
    decreases rows.len(),
{
    if rows.len() == 0 {
        None
    } else {
        let rest = latest_prior(rows.drop_last(), member_id);
        if rows.last().member_id != member_id {
            rest
        } else {
            match rest {
                None => Some(rows.last()),
                Some(b) => if later(rows.last(), b) {
                    Some(rows.last())
                } else {
                    Some(b)
                },
            }
        }
    }
}

/// The members that the plan must cover, in input order.
pub open spec fn fill_members(
    members: Seq<Member>,
    rows: Seq<ContributionRecord>,
    y: int,
    mo: int,
) -> Seq<Member>
    decreases members.len(),
{
    if members.len() == 0 {
        Seq::empty()
    } else {
        let rest = fill_members(members.drop_last(), rows, y, mo);
        if needs_fill(members.last(), rows, y, mo) {
            rest.push(members.last())
        } else {
            rest
        }
    }
}

/// Planned record `r` is the synthesized contribution for member `m` at the
/// target period: the amounts and flag of the member's most recent prior
/// record, or zero amounts and flag `N` without history, tagged `prefilled`.
pub open spec fn synth_matches(
    r: ContributionRecord,
    m: Member,
    rows: Seq<ContributionRecord>,
    y: int,
    mo: int,
) -> bool {
    &&& r.member_id == m.id
    &&& r.period_year == y
    &&& r.period_month == mo
    &&& r.source@ == "prefilled"@
    &&& match latest_prior(rows, m.id) {
        Some(p) => {
            &&& r.employee_basic@ == p.employee_basic@
            &&& r.employee_additional@ == p.employee_additional@
            &&& r.employer_basic@ == p.employer_basic@
            &&& r.employer_additional@ == p.employer_additional@
            &&& r.reduced_basic_flag@ == p.reduced_basic_flag@
        },
        None => {
            &&& r.employee_basic@ == "0.00"@
            &&& r.employee_additional@ == "0.00"@
            &&& r.employer_basic@ == "0.00"@
            &&& r.employer_additional@ == "0.00"@
            &&& r.reduced_basic_flag@ == "N"@
        },
    }
}

/// Tests whether `rows` holds a record of `member_id` at (`y`, `m`).
fn find_record(rows: &[ContributionRecord], member_id: i64, y: i32, m: i32) -> (r: bool)
    ensures
        r == has_record(rows@, member_id, y as int, m as int),
{
    let n = rows.len();
    let mut i: usize = 0;
    while i < n
        invariant
            n == rows@.len(),
            i <= n,
            !(exists|j: int|
                0 <= j < i && rows@[j].member_id == member_id && #[trigger] rows@[j].period_year
                    == y as int && rows@[j].period_month == m as int),
        decreases n - i,
    {
        let c = &rows[i];
        if c.member_id == member_id && c.period_year == y && c.period_month == m {
            return true;
        }
        i = i + 1;
    }
    false
}

/// Finds the most recent record of `member_id` in `rows`, ordered by
/// (year desc, month desc); an earlier row wins a tie.
fn most_recent_prior(rows: &[ContributionRecord], member_id: i64) -> (r: Option<usize>)
    ensures
        r matches Some(i) ==> i < rows@.len() && latest_prior(rows@, member_id) == Some(
            rows@[i as int],
        ),
        r is None <==> latest_prior(rows@, member_id) is None,
{
    let n = rows.len();
    let mut best: Option<usize> = None;
    let mut i: usize = 0;
    while i < n
        invariant
            n == rows@.len(),
            i <= n,
            best matches Some(b) ==> b < i && latest_prior(rows@.subrange(0, i as int), member_id)
                == Some(rows@[b as int]),
            best is None <==> latest_prior(rows@.subrange(0, i as int), member_id) is None,
        decreases n - i,
    {
        let c = &rows[i];
        proof {
            let pre = rows@.subrange(0, i + 1);
            assert(pre.drop_last() =~= rows@.subrange(0, i as int));
            assert(pre.last() == rows@[i as int]);
        }
        if c.member_id == member_id {
            best = match best {
                None => Some(i),
                Some(b) => {
                    let p = &rows[b];
                    if c.period_year > p.period_year || (c.period_year == p.period_year
                        && c.period_month > p.period_month) {
                        Some(i)
                    } else {
                        Some(b)
                    }
                },
            };
        }
        i = i + 1;
    }
    proof {
        assert(rows@.subrange(0, n as int) =~= rows@);
    }
    best
}

impl Contribution {
    /// Plans the records a prefill of (`target_year`, `target_month`) must
    /// insert: one synthesized contribution per active member without a
    /// record at the target period, in member order.
    ///
    /// Each planned record copies the member's most recent prior record, or
    /// holds `0.00` amounts and flag `N` when the member has no history, and
    /// is tagged `prefilled`. Running the plan and reconciling again plans
    /// nothing, which is proved as `lemma_prefill_idempotent`.
    pub fn prefill_plan(
        members: &[Member],
        rows: &[ContributionRecord],
        target_year: i32,
        target_month: i32,
    ) -> (plan: Vec<ContributionRecord>)
        ensures
            plan@.len() == fill_members(
                members@,
                rows@,
                target_year as int,
                target_month as int,
            ).len(),
            forall|k: int|
                0 <= k < plan@.len() ==> synth_matches(
                    #[trigger] plan@[k],
                    fill_members(members@, rows@, target_year as int, target_month as int)[k],
                    rows@,
                    target_year as int,
                    target_month as int,
                ),
    {
        let ghost y = target_year as int;
        let ghost mo = target_month as int;
        let n = members.len();
        let mut plan: Vec<ContributionRecord> = Vec::new();
        let mut i: usize = 0;
        while i < n
            invariant
                n == members@.len(),
                i <= n,
                y == target_year as int,
                mo == target_month as int,
                plan@.len() == fill_members(members@.subrange(0, i as int), rows@, y, mo).len(),
                forall|k: int|
                    0 <= k < plan@.len() ==> synth_matches(
                        #[trigger] plan@[k],
                        fill_members(members@.subrange(0, i as int), rows@, y, mo)[k],
                        rows@,
                        y,
                        mo,
                    ),
            decreases n - i,
        {
            let m = &members[i];
            proof {
                let pre = members@.subrange(0, i + 1);
                assert(pre.drop_last() =~= members@.subrange(0, i as int));
                assert(pre.last() == members@[i as int]);
            }
            if str_eq(m.status.as_str(), "active") && !find_record(
                rows,
                m.id,
                target_year,
                target_month,
            ) {
                let record = match most_recent_prior(rows, m.id) {
                    Some(p) => {
                        let prior = &rows[p];
                        ContributionRecord {
                            member_id: m.id,
                            period_year: target_year,
                            period_month: target_month,
                            employee_basic: prior.employee_basic.clone(),
                            employee_additional: prior.employee_additional.clone(),
                            employer_basic: prior.employer_basic.clone(),
                            employer_additional: prior.employer_additional.clone(),
                            reduced_basic_flag: prior.reduced_basic_flag.clone(),
                            source: String::from_str("prefilled"),
                        }
                    },
                    None => ContributionRecord {
                        member_id: m.id,
                        period_year: target_year,
                        period_month: target_month,
                        employee_basic: String::from_str("0.00"),
                        employee_additional: String::from_str("0.00"),
                        employer_basic: String::from_str("0.00"),
                        employer_additional: String::from_str("0.00"),
                        reduced_basic_flag: String::from_str("N"),
                        source: String::from_str("prefilled"),
                    },
                };
                plan.push(record);
            }
            i = i + 1;
        }
        proof {
            assert(members@.subrange(0, n as int) =~= members@);
        }
        plan
    }
}

/// A member that needs filling appears in `fill_members`.
proof fn lemma_fill_members_covers(
    members: Seq<Member>,
    rows: Seq<ContributionRecord>,
    y: int,
    mo: int,
    i: int,
)
    requires
        0 <= i < members.len(),
        needs_fill(members[i], rows, y, mo),
    ensures
        exists|k: int|
            0 <= k < fill_members(members, rows, y, mo).len() && #[trigger] fill_members(
                members,
                rows,
                y,
                mo,
            )[k] == members[i],
    decreases members.len(),
{
    if i == members.len() - 1 {
        assert(members.last() == members[i]);
        let f = fill_members(members, rows, y, mo);
        assert(f.last() == members[i]);
    } else {
        assert(members.drop_last()[i] == members[i]);
        lemma_fill_members_covers(members.drop_last(), rows, y, mo, i);
        let frest = fill_members(members.drop_last(), rows, y, mo);
        let f = fill_members(members, rows, y, mo);
        let k = choose|k: int| 0 <= k < frest.len() && #[trigger] frest[k] == members[i];
        assert(f[k] == members[i]);
    }
}

/// Adding rows never makes a member need filling again.
proof fn lemma_has_record_grows(
    rows: Seq<ContributionRecord>,
    more: Seq<ContributionRecord>,
    member_id: i64,
    y: int,
    mo: int,
)
    requires
        has_record(rows, member_id, y, mo),
    ensures
        has_record(rows + more, member_id, y, mo),
{
    let i = choose|i: int|
        0 <= i < rows.len() && rows[i].member_id == member_id && #[trigger] rows[i].period_year
            == y && rows[i].period_month == mo;
    assert((rows + more)[i] == rows[i]);
}

/// When no member needs filling, the plan is empty.
proof fn lemma_fill_members_empty(
    members: Seq<Member>,
    rows: Seq<ContributionRecord>,
    y: int,
    mo: int,
)
    requires
        forall|i: int| 0 <= i < members.len() ==> !needs_fill(#[trigger] members[i], rows, y, mo),
    ensures
        fill_members(members, rows, y, mo).len() == 0,
    decreases members.len(),
{
    if members.len() > 0 {
        assert(forall|i: int|
            0 <= i < members.drop_last().len() ==> members.drop_last()[i] == members[i]);
        lemma_fill_members_empty(members.drop_last(), rows, y, mo);
    }
}

/// Reconciling a period is idempotent: after the planned records are stored,
/// reconciling the same (organization, period) dataset again plans zero
/// inserts, because every active member then has a record at the period.
pub proof fn lemma_prefill_idempotent(
    members: Seq<Member>,
    rows: Seq<ContributionRecord>,
    plan: Seq<ContributionRecord>,
    y: int,
    mo: int,
)
    requires
        plan.len() == fill_members(members, rows, y, mo).len(),
        forall|k: int|
            0 <= k < plan.len() ==> synth_matches(
                #[trigger] plan[k],
                fill_members(members, rows, y, mo)[k],
                rows,
                y,
                mo,
            ),
    ensures
        fill_members(members, rows + plan, y, mo).len() == 0,
{
    let all = rows + plan;
    assert forall|i: int| 0 <= i < members.len() implies !needs_fill(
        #[trigger] members[i],
        all,
        y,
        mo,
    ) by {
        let m = members[i];
        if member_active(m) {
            if has_record(rows, m.id, y, mo) {
                lemma_has_record_grows(rows, plan, m.id, y, mo);
            } else {
                lemma_fill_members_covers(members, rows, y, mo, i);
                let f = fill_members(members, rows, y, mo);
                let k = choose|k: int| 0 <= k < f.len() && #[trigger] f[k] == m;
                assert(synth_matches(plan[k], m, rows, y, mo));
                assert(all[rows.len() + k] == plan[k]);
                assert(has_record(all, m.id, y, mo));
            }
        }
    }
    lemma_fill_members_empty(members, all, y, mo);
}

/// What the most recent prior record means: it belongs to the member, no
/// record of the member is strictly later, and it is one of the rows; when
/// `None` comes back the member has no row at all.
pub proof fn lemma_latest_prior_is_max(rows: Seq<ContributionRecord>, member_id: i64)
    ensures
        latest_prior(rows, member_id) matches Some(p) ==> {
            &&& p.member_id == member_id
            &&& exists|i: int| 0 <= i < rows.len() && #[trigger] rows[i] == p
            &&& forall|i: int|
                0 <= i < rows.len() && #[trigger] rows[i].member_id == member_id ==> !later(
                    rows[i],
                    p,
                )
        },
        latest_prior(rows, member_id) is None ==> forall|i: int|
            0 <= i < rows.len() ==> #[trigger] rows[i].member_id != member_id,
    decreases rows.len(),
{
    if rows.len() > 0 {
        lemma_latest_prior_is_max(rows.drop_last(), member_id);
        assert(forall|i: int|
            0 <= i < rows.drop_last().len() ==> rows.drop_last()[i] == rows[i]);
        match latest_prior(rows, member_id) {
            Some(p) => {
                if exists|i: int|
                    0 <= i < rows.drop_last().len() && #[trigger] rows.drop_last()[i] == p {
                    let i = choose|i: int|
                        0 <= i < rows.drop_last().len() && #[trigger] rows.drop_last()[i] == p;
                    assert(rows[i] == p);
                }
            },
            None => {},
        }
    }
}

} // verus!

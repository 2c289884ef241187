//! Retry budgets: how often each failure action may retry its step, and how
//! many attempts a workflow may make in all.

use crate::model::{ActionType, OnAction, Step};
use crate::step_refs::applicable;
use vstd::prelude::*;

verus! {

/// The retries that an action without a `retryLimit` grants.
pub const DEFAULT_RETRY_LIMIT: u64 = 1;

/// Where retries are counted: a step, and the position of the action in the
/// list that the step's failures are routed through.
#[derive(Debug, Clone, Copy, PartialEq, Eq, Structural)]
pub struct RetrySite {
    pub step_index: usize,
    pub action_index: usize,
}

impl RetrySite {
    /// The site of an action of a step.
    pub fn new(step_index: usize, action_index: usize) -> (r: RetrySite)
        ensures
            r == (RetrySite { step_index, action_index }),
    {
        RetrySite { step_index, action_index }
    }
}

/// How many retries each site has scheduled. A site without an entry has
/// scheduled none.
#[derive(Debug, PartialEq)]
pub struct RetryCounts {
    counts: Vec<(RetrySite, u64)>,
}

/// The count of `site` in the entries at or after `from`.
spec fn count_from(counts: Seq<(RetrySite, u64)>, from: int, site: RetrySite) -> u64
    decreases counts.len() - from,
{
    if from >= counts.len() {
        0
    } else if counts[from].0 == site {
        counts[from].1
    } else {
        count_from(counts, from + 1, site)
    }
}

proof fn count_from_first(counts: Seq<(RetrySite, u64)>, from: int, at: int, site: RetrySite)
    requires
        0 <= from <= at <= counts.len(),
        at < counts.len() ==> counts[at].0 == site,
        forall|j: int| from <= j < at ==> (#[trigger] counts[j]).0 != site,
    ensures
        count_from(counts, from, site) == (if at < counts.len() {
            counts[at].1
        } else {
            0
        }),
    decreases at - from,
{
    if from < at {
        count_from_first(counts, from + 1, at, site);
    }
}

proof fn count_from_changed(
    a: Seq<(RetrySite, u64)>,
    b: Seq<(RetrySite, u64)>,
    from: int,
    site: RetrySite,
)
    requires
        0 <= from,
        a.len() <= b.len(),
        forall|j: int|
            0 <= j < a.len() ==> (#[trigger] a[j]).0 == b[j].0 && (a[j].0 == site ==> a[j].1
                == b[j].1),
        forall|j: int| a.len() <= j < b.len() ==> (#[trigger] b[j]).0 != site,
    ensures
        count_from(a, from, site) == count_from(b, from, site),
    decreases b.len() - from,
{
    if from < b.len() {
        if from < a.len() {
            assert(a[from].0 == b[from].0);
        }
        count_from_changed(a, b, from + 1, site);
    }
}

impl RetryCounts {
    /// The retries that `site` has scheduled.
    pub closed spec fn count(self, site: RetrySite) -> u64 {
        count_from(self.counts@, 0, site)
    }

    /// Nothing retried yet.
    pub fn new() -> (r: RetryCounts)
        ensures
            forall|site: RetrySite| #[trigger] r.count(site) == 0,
    {
        RetryCounts { counts: Vec::new() }
    }

    fn position(&self, site: RetrySite) -> (r: usize)
        ensures
            r <= self.counts@.len(),
            r < self.counts@.len() ==> self.counts@[r as int].0 == site,
            forall|j: int| 0 <= j < r ==> (#[trigger] self.counts@[j]).0 != site,
    {
        let mut i: usize = 0;
        while i < self.counts.len() && !(self.counts[i].0 == site)
            invariant
                i <= self.counts@.len(),
                forall|j: int| 0 <= j < i ==> (#[trigger] self.counts@[j]).0 != site,
            decreases self.counts@.len() - i,
        {
            i = i + 1;
        }
        i
    }

    /// The retries that `site` has scheduled.
    pub fn get(&self, site: RetrySite) -> (r: u64)
        ensures
            r == self.count(site),
    {
        let i = self.position(site);
        proof {
            count_from_first(self.counts@, 0, i as int, site);
        }
        if i < self.counts.len() {
            self.counts[i].1
        } else {
            0
        }
    }

    /// Counts one retry more at `site` and nowhere else.
    pub fn increment(&mut self, site: RetrySite) -> (r: u64)
        requires
            old(self).count(site) < u64::MAX,
        ensures
            r == old(self).count(site) + 1,
            counted(*old(self), *final(self), site),
    {
        let ghost before = self.counts@;
        let i = self.position(site);
        proof {
            count_from_first(before, 0, i as int, site);
        }
        let count: u64;
        if i < self.counts.len() {
            count = self.counts[i].1 + 1;
            self.counts.set(i, (site, count));
        } else {
            count = 1;
            self.counts.push((site, count));
        }
        proof {
            let after = self.counts@;
            count_from_first(after, 0, i as int, site);
            assert forall|other: RetrySite| other != site implies #[trigger] self.count(other)
                == count_from(before, 0, other) by {
                count_from_changed(before, after, 0, other);
            }
        }
        count
    }
}

/// Whether one retry more was counted at `site`, and none elsewhere.
pub open spec fn counted(before: RetryCounts, after: RetryCounts, site: RetrySite) -> bool {
    &&& after.count(site) == before.count(site) + 1
    &&& forall|other: RetrySite|
        other != site ==> #[trigger] after.count(other) == before.count(other)
}

/// Whether two counts agree on the sites of a step.
pub open spec fn agree_on_step(a: RetryCounts, b: RetryCounts, step_index: usize) -> bool {
    forall|site: RetrySite|
        site.step_index == step_index ==> #[trigger] a.count(site) == b.count(site)
}

/// A step that counts its retries by itself counts what a count shared with
/// the other steps would: a retry of the step keeps the two alike, and so does
/// one of another step, which only the shared count sees.
pub proof fn own_counts_are_the_shared_ones(
    shared: RetryCounts,
    shared_after: RetryCounts,
    own: RetryCounts,
    own_after: RetryCounts,
    step_index: usize,
    site: RetrySite,
)
    requires
        agree_on_step(shared, own, step_index),
        counted(shared, shared_after, site),
        site.step_index == step_index ==> counted(own, own_after, site),
        site.step_index != step_index ==> own_after == own,
    ensures
        agree_on_step(shared_after, own_after, step_index),
{
    assert forall|other: RetrySite| other.step_index == step_index implies #[trigger] shared_after.count(
        other,
    ) == own_after.count(other) by {
        assert(shared.count(other) == own.count(other));
    }
}

/// A retry that was counted against its site.
#[derive(Debug, Clone, Copy, PartialEq, Eq, Structural)]
pub struct ScheduledRetry {
    /// Which retry of its site this is, from one.
    pub attempt: u64,
    pub max_attempts: u64,
    pub delay_nanos: u128,
}

/// Counts one retry more at `site` and returns it for reporting.
pub fn count_retry(
    counts: &mut RetryCounts,
    site: RetrySite,
    max_attempts: u64,
    delay_nanos: u128,
) -> (r: ScheduledRetry)
    requires
        old(counts).count(site) < u64::MAX,
    ensures
        r.attempt == old(counts).count(site) + 1,
        r.max_attempts == max_attempts,
        r.delay_nanos == delay_nanos,
        counted(*old(counts), *final(counts), site),
{
    let attempt = counts.increment(site);
    ScheduledRetry { attempt, max_attempts, delay_nanos }
}

/// The retries that an action grants.
pub open spec fn retry_limit_of(configured: Option<u64>) -> u64 {
    match configured {
        Some(n) => n,
        None => DEFAULT_RETRY_LIMIT,
    }
}

/// The retries that an action grants: what it declares, and one where it
/// declares nothing.
pub fn effective_retry_limit(configured_limit: Option<u64>) -> (r: u64)
    ensures
        r == retry_limit_of(configured_limit),
{
    match configured_limit {
        Some(n) => n,
        None => DEFAULT_RETRY_LIMIT,
    }
}

/// The sum of the retries that the retry actions of a list grant.
pub open spec fn retry_budget(actions: Seq<OnAction>) -> nat
    decreases actions.len(),
{
    if actions.len() == 0 {
        0
    } else {
        retry_budget(actions.drop_last()) + if actions.last().type_ == ActionType::Retry {
            retry_limit_of(actions.last().retry_limit) as nat
        } else {
            0
        }
    }
}

/// The attempts that the steps can make: one each, and the retries of the
/// list that its failures are routed through.
pub open spec fn attempt_budget(steps: Seq<&Step>, workflow_actions: Seq<OnAction>) -> nat
    decreases steps.len(),
{
    if steps.len() == 0 {
        0
    } else {
        attempt_budget(steps.drop_last(), workflow_actions) + 1 + retry_budget(
            applicable(steps.last().on_failure@, workflow_actions),
        )
    }
}

/// A number, or the greatest that 128 bits hold.
pub open spec fn capped(n: nat) -> nat {
    if n > u128::MAX {
        u128::MAX as nat
    } else {
        n
    }
}

fn plus(a: u128, b: u128) -> (r: u128)
    ensures
        r == capped((a + b) as nat),
{
    a.saturating_add(b)
}

fn times(a: u128, b: u128) -> (r: u128)
    ensures
        r == capped((a * b) as nat),
{
    match a.checked_mul(b) {
        Some(v) => v,
        None => u128::MAX,
    }
}

/// The sum of the retries that the retry actions of a list grant.
pub fn retry_budget_from_actions(actions: &Vec<OnAction>) -> (r: u128)
    ensures
        r == capped(retry_budget(actions@)),
{
    let mut sum: u128 = 0;
    let mut i: usize = 0;
    while i < actions.len()
        invariant
            i <= actions@.len(),
            sum == capped(retry_budget(actions@.take(i as int))),
        decreases actions@.len() - i,
    {
        assert(actions@.take(i + 1).drop_last() =~= actions@.take(i as int));
        if actions[i].type_ == ActionType::Retry {
            sum = plus(sum, effective_retry_limit(actions[i].retry_limit) as u128);
        }
        i = i + 1;
    }
    assert(actions@.take(i as int) =~= actions@);
    sum
}

/// The greatest number of iterations a run over the steps may take: twice
/// the attempts they can make, and at least ten for each step.
pub open spec fn iteration_limit(steps: Seq<&Step>, workflow_actions: Seq<OnAction>) -> nat {
    let attempts = 2 * attempt_budget(steps, workflow_actions);
    let floor = 10 * steps.len();
    capped(
        if attempts < floor {
            floor
        } else {
            attempts
        },
    )
}

/// The greatest number of iterations a run over the steps may take.
pub fn compute_max_iterations(steps: &Vec<&Step>, workflow_actions: &Vec<OnAction>) -> (r: u128)
    ensures
        r == iteration_limit(steps@, workflow_actions@),
{
    let workflow_retry = retry_budget_from_actions(workflow_actions);
    let mut total: u128 = 0;
    let mut i: usize = 0;
    while i < steps.len()
        invariant
            i <= steps@.len(),
            workflow_retry == capped(retry_budget(workflow_actions@)),
            total == capped(attempt_budget(steps@.take(i as int), workflow_actions@)),
        decreases steps@.len() - i,
    {
        assert(steps@.take(i + 1).drop_last() =~= steps@.take(i as int));
        let step = steps[i];
        let retries = if step.on_failure.len() == 0 {
            workflow_retry
        } else {
            retry_budget_from_actions(&step.on_failure)
        };
        total = plus(total, plus(1, retries));
        i = i + 1;
    }
    assert(steps@.take(i as int) =~= steps@);
    let attempts = times(total, 2);
    let floor = times(steps.len() as u128, 10);
    if attempts < floor {
        floor
    } else {
        attempts
    }
}

proof fn attempt_budget_counts_steps(steps: Seq<&Step>, workflow_actions: Seq<OnAction>)
    ensures
        attempt_budget(steps, workflow_actions) >= steps.len(),
    decreases steps.len(),
{
    if steps.len() > 0 {
        attempt_budget_counts_steps(steps.drop_last(), workflow_actions);
    }
}

/// The limit never stands in the way of the attempts that the retry budgets
/// grant: every step can run once and use up all its retries.
pub proof fn limit_covers_every_attempt(steps: Seq<&Step>, workflow_actions: Seq<OnAction>)
    ensures
        capped(attempt_budget(steps, workflow_actions)) <= iteration_limit(steps, workflow_actions),
        steps.len() <= u128::MAX ==> steps.len() <= iteration_limit(steps, workflow_actions),
{
    attempt_budget_counts_steps(steps, workflow_actions);
}

} // verus!

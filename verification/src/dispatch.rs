//! Client-side dispatcher: drives a batch of independent connect,
//! authenticate and execute attempts against a target under a fixed
//! concurrency ceiling, aborting on the first batch-fatal outcome.
//!
//! The dispatcher here is the decision core: which task may start, what a
//! completed task's outcome means for the batch, and when the batch is
//! finished.  Performing an attempt (the network round-trip) is the
//! caller's concern; it reports each outcome back as a plain value.

use vstd::prelude::*;

verus! {

// ---------------------------------------------------------------------------
// Task outcomes
// ---------------------------------------------------------------------------

/// How one connect + authenticate + execute attempt ended.
#[derive(Debug, Clone, Copy, PartialEq, Eq, Structural)]
pub enum TaskOutcome {
    /// The round-trip went through.
    Success,
    /// The target refused key authentication.
    KeyAuthFailed,
    /// The target rejected the password.
    PasswordWrong,
    /// The key material was invalid.
    KeyInvalid,
    /// The target address was invalid.
    AddressInvalid,
    /// Any other per-task failure: counted as done, never batch-fatal.
    OtherFailure,
}

/// A batch-fatal error: the first one aborts the whole batch.
#[derive(Debug, Clone, Copy, PartialEq, Eq, Structural)]
pub enum BatchError {
    KeyAuthFailed,
    PasswordWrong,
    KeyInvalid,
    AddressInvalid,
}

/// The batch-fatal error an outcome carries, if any.  Only the four
/// authentication and address errors are fatal; success and every other
/// failure count as done.
pub open spec fn spec_batch_fatal(o: TaskOutcome) -> Option<BatchError> {
    match o {
        TaskOutcome::Success => None,
        TaskOutcome::KeyAuthFailed => Some(BatchError::KeyAuthFailed),
        TaskOutcome::PasswordWrong => Some(BatchError::PasswordWrong),
        TaskOutcome::KeyInvalid => Some(BatchError::KeyInvalid),
        TaskOutcome::AddressInvalid => Some(BatchError::AddressInvalid),
        TaskOutcome::OtherFailure => None,
    }
}

/// Classifies one outcome: `Some` exactly for the batch-fatal errors.
pub fn classify_outcome(o: TaskOutcome) -> (r: Option<BatchError>)
    ensures
        r == spec_batch_fatal(o),
{
    match o {
        TaskOutcome::Success => None,
        TaskOutcome::KeyAuthFailed => Some(BatchError::KeyAuthFailed),
        TaskOutcome::PasswordWrong => Some(BatchError::PasswordWrong),
        TaskOutcome::KeyInvalid => Some(BatchError::KeyInvalid),
        TaskOutcome::AddressInvalid => Some(BatchError::AddressInvalid),
        TaskOutcome::OtherFailure => None,
    }
}

// ---------------------------------------------------------------------------
// The concurrency window
// ---------------------------------------------------------------------------

/// Mathematical state of a dispatcher.
pub struct DispatcherView {
    /// Number of tasks the batch was created with.
    pub total: int,
    /// The concurrency ceiling.
    pub concurrency: int,
    /// Tasks handed out so far.
    pub started: int,
    /// Tasks whose outcome was reported back.
    pub completed: int,
    /// The first batch-fatal error seen, if any.
    pub failure: Option<BatchError>,
}

/// A further task may start: the batch is still running, tasks remain, and
/// a concurrency slot is free.
pub open spec fn can_admit(v: DispatcherView) -> bool {
    &&& v.failure is None
    &&& v.started < v.total
    &&& v.started - v.completed < v.concurrency
}

/// Reporting one outcome back: the completion is counted, and the first
/// batch-fatal outcome decides the batch's failure.
pub open spec fn complete_step(v: DispatcherView, o: TaskOutcome) -> DispatcherView {
    DispatcherView {
        completed: v.completed + 1,
        failure: if v.failure is Some {
            v.failure
        } else {
            spec_batch_fatal(o)
        },
        ..v
    }
}

/// The batch is finished: aborted by a fatal outcome, or all tasks done.
pub open spec fn spec_finished(v: DispatcherView) -> bool {
    v.failure is Some || v.completed == v.total
}

/// Bounded-concurrency, fail-fast batch driver.
pub struct Dispatcher {
    total: usize,
    concurrency: usize,
    started: usize,
    completed: usize,
    failure: Option<BatchError>,
}

impl View for Dispatcher {
    type V = DispatcherView;

    closed spec fn view(&self) -> DispatcherView {
        DispatcherView {
            total: self.total as int,
            concurrency: self.concurrency as int,
            started: self.started as int,
            completed: self.completed as int,
            failure: self.failure,
        }
    }
}

impl Dispatcher {
    /// At most `concurrency` tasks are ever in flight, and bookkeeping is
    /// consistent.
    pub open spec fn wf(self) -> bool {
        &&& self@.concurrency >= 1
        &&& 0 <= self@.completed <= self@.started <= self@.total
        &&& self@.started - self@.completed <= self@.concurrency
    }

    /// A fresh batch of `total` tasks under the given ceiling.
    pub fn new(total: usize, concurrency: usize) -> (d: Dispatcher)
        requires
            concurrency >= 1,
        ensures
            d.wf(),
            d@ == (DispatcherView {
                total: total as int,
                concurrency: concurrency as int,
                started: 0,
                completed: 0,
                failure: None,
            }),
    {
        Dispatcher { total, concurrency, started: 0, completed: 0, failure: None }
    }

    /// Whether a further task may start now.
    pub fn poll_admit(&self) -> (r: bool)
        requires
            self.wf(),
        ensures
            r == can_admit(self@),
    {
        self.failure.is_none() && self.started < self.total && self.started - self.completed
            < self.concurrency
    }

    /// Hands out the next task.
    pub fn start_next(&mut self)
        requires
            old(self).wf(),
            can_admit(old(self)@),
        ensures
            final(self).wf(),
            final(self)@ == (DispatcherView { started: old(self)@.started + 1, ..old(self)@ }),
    {
        self.started = self.started + 1;
    }

    /// Takes one completed task's outcome.  Tasks still in flight when the
    /// batch has already failed are drained through here as well; their
    /// outcomes cannot displace the first fatal error.
    pub fn complete(&mut self, o: TaskOutcome)
        requires
            old(self).wf(),
            old(self)@.completed < old(self)@.started,
        ensures
            final(self).wf(),
            final(self)@ == complete_step(old(self)@, o),
    {
        self.completed = self.completed + 1;
        if self.failure.is_none() {
            self.failure = classify_outcome(o);
        }
    }

    /// Number of tasks currently in flight.
    pub fn in_flight(&self) -> (r: usize)
        requires
            self.wf(),
        ensures
            r == self@.started - self@.completed,
    {
        self.started - self.completed
    }

    /// Whether the batch is finished.
    pub fn is_finished(&self) -> (r: bool)
        requires
            self.wf(),
        ensures
            r == spec_finished(self@),
    {
        self.failure.is_some() || self.completed == self.total
    }

    /// The batch's result: the first batch-fatal error, if any task hit
    /// one, else success.
    pub fn batch_result(&self) -> (r: Result<(), BatchError>)
        ensures
            match self@.failure {
                Some(e) => r == Err::<(), BatchError>(e),
                None => r == Ok::<(), BatchError>(()),
            },
    {
        match self.failure {
            Some(e) => Err(e),
            None => Ok(()),
        }
    }
}

/// The dispatcher's state after a run of outcomes is reported back in
/// order.
pub open spec fn complete_many(v: DispatcherView, outcomes: Seq<TaskOutcome>) -> DispatcherView
    decreases outcomes.len(),
{
    if outcomes.len() == 0 {
        v
    } else {
        complete_many(complete_step(v, outcomes.first()), outcomes.drop_first())
    }
}

/// Law: fail-fast.  If the batch has not failed yet and the outcomes
/// reported back contain a batch-fatal one, the batch's result is the error
/// of the first of them — later outcomes, fatal or not, change nothing, and
/// the batch never ends in success.
pub proof fn law_fail_fast(v: DispatcherView, outcomes: Seq<TaskOutcome>, i: int)
    requires
        v.failure is None,
        0 <= i < outcomes.len(),
        spec_batch_fatal(outcomes[i]) is Some,
        forall|j: int| 0 <= j < i ==> spec_batch_fatal(outcomes[j]) is None,
    ensures
        complete_many(v, outcomes).failure == spec_batch_fatal(outcomes[i]),
    decreases outcomes.len(),
{
    if i == 0 {
        lemma_failure_sticks(complete_step(v, outcomes.first()), outcomes.drop_first());
    } else {
        assert(outcomes.drop_first()[i - 1] == outcomes[i]);
        assert forall|j: int| 0 <= j < i - 1 implies spec_batch_fatal(
            #[trigger] outcomes.drop_first()[j],
        ) is None by {
            assert(outcomes.drop_first()[j] == outcomes[j + 1]);
        }
        law_fail_fast(complete_step(v, outcomes.first()), outcomes.drop_first(), i - 1);
    }
}

/// Once the batch has failed, no later outcome changes the result.
proof fn lemma_failure_sticks(v: DispatcherView, outcomes: Seq<TaskOutcome>)
    requires
        v.failure is Some,
    ensures
        complete_many(v, outcomes).failure == v.failure,
    decreases outcomes.len(),
{
    if outcomes.len() > 0 {
        lemma_failure_sticks(complete_step(v, outcomes.first()), outcomes.drop_first());
    }
}

// ---------------------------------------------------------------------------
// Throughput of a uniform batch
// ---------------------------------------------------------------------------

/// Tasks done after one more round against a uniform target: the free
/// window slots fill, every attempt takes the round's length and succeeds,
/// so exactly the tasks in flight complete.
pub open spec fn uniform_round(done: int, total: int, concurrency: int) -> int {
    if total - done < concurrency {
        total
    } else {
        done + concurrency
    }
}

/// Tasks done after `k` such rounds, starting from none.
pub open spec fn uniform_rounds(total: int, concurrency: int, k: nat) -> int
    decreases k,
{
    if k == 0 {
        0
    } else {
        uniform_round(uniform_rounds(total, concurrency, (k - 1) as nat), total, concurrency)
    }
}

proof fn lemma_uniform_rounds_value(total: int, concurrency: int, k: nat)
    requires
        concurrency >= 1,
        total >= 0,
    ensures
        uniform_rounds(total, concurrency, k) == if k * concurrency <= total {
            k * concurrency
        } else {
            total
        },
    decreases k,
{
    if k > 0 {
        lemma_uniform_rounds_value(total, concurrency, (k - 1) as nat);
        let prev = uniform_rounds(total, concurrency, (k - 1) as nat);
        assert(k * concurrency == (k - 1) as nat * concurrency + concurrency) by (nonlinear_arith)
            requires
                k >= 1,
        ;
        if (k - 1) as nat * concurrency <= total {
            assert(prev == (k - 1) as nat * concurrency);
            if total - prev < concurrency {
                assert(uniform_rounds(total, concurrency, k) == total);
                assert(k * concurrency > total);
            } else {
                assert(uniform_rounds(total, concurrency, k) == prev + concurrency);
                assert(k * concurrency <= total);
            }
        } else {
            assert(prev == total);
            assert(k * concurrency > total);
        }
    } else {
        assert(k * concurrency == 0) by (nonlinear_arith)
            requires
                k == 0,
        ;
    }
}

/// Law: against a uniform mock target — every attempt takes exactly one
/// round and succeeds — a batch of `total` tasks under ceiling
/// `concurrency` completes at most `concurrency` tasks per round, and is
/// finished after exactly `(total + concurrency - 1) / concurrency`
/// rounds: not one round earlier.  With a round of `d` milliseconds the
/// elapsed time is that many rounds times `d`.
pub proof fn law_uniform_batch_rounds(total: int, concurrency: int)
    requires
        concurrency >= 1,
        total >= 1,
    ensures
        ({
            let rounds = (total + concurrency - 1) / concurrency;
            &&& uniform_rounds(total, concurrency, rounds as nat) == total
            &&& uniform_rounds(total, concurrency, (rounds - 1) as nat) < total
            &&& forall|k: nat|
                uniform_rounds(total, concurrency, k) <= #[trigger] (k * concurrency)
        }),
{
    let rounds = (total + concurrency - 1) / concurrency;
    vstd::arithmetic::div_mod::lemma_fundamental_div_mod(total + concurrency - 1, concurrency);
    vstd::arithmetic::div_mod::lemma_mod_bound(total + concurrency - 1, concurrency);
    let rem = (total + concurrency - 1) % concurrency;
    assert(total + concurrency - 1 == concurrency * rounds + rem);
    assert(concurrency * rounds == rounds * concurrency) by (nonlinear_arith);
    assert(rounds * concurrency == total + concurrency - 1 - rem);
    assert(rounds * concurrency >= total);
    assert(rounds >= 1) by {
        if rounds <= 0 {
            assert(rounds * concurrency <= 0) by (nonlinear_arith)
                requires
                    rounds <= 0,
                    concurrency >= 1,
            ;
        }
    }
    assert((rounds - 1) * concurrency == rounds * concurrency - concurrency) by (nonlinear_arith);
    assert((rounds - 1) * concurrency < total);
    lemma_uniform_rounds_value(total, concurrency, rounds as nat);
    lemma_uniform_rounds_value(total, concurrency, (rounds - 1) as nat);
    assert forall|k: nat| uniform_rounds(total, concurrency, k) <= #[trigger] (k * concurrency) by {
        lemma_uniform_rounds_value(total, concurrency, k);
        if k * concurrency > total {
            assert(k * concurrency >= 0) by (nonlinear_arith)
                requires
                    k >= 0,
                    concurrency >= 1,
            ;
        }
    }
}

// ---------------------------------------------------------------------------
// Target address filtering
// ---------------------------------------------------------------------------

/// Address family of a resolved target address.
#[derive(Debug, Clone, Copy, PartialEq, Eq, Structural)]
pub enum IpFamily {
    V4,
    V6,
}

/// A resolved target address as the dispatcher sees it: its family, and an
/// opaque key under which the caller keeps the real address.
#[derive(Debug, Clone, Copy, PartialEq, Eq, Structural)]
pub struct TargetAddr {
    pub family: IpFamily,
    pub key: u64,
}

/// A configuration that cannot be satisfied: rejected before any
/// connection attempt.
#[derive(Debug, Clone, Copy, PartialEq, Eq, Structural)]
pub enum ClientConfigError {
    /// The IPv4-only and IPv6-only filters are mutually exclusive.
    BothFamilyFilters,
}

/// Whether an address of this family passes the requested filter.
pub open spec fn family_selected(f: IpFamily, v4_only: bool, v6_only: bool) -> bool {
    if v4_only {
        f is V4
    } else if v6_only {
        f is V6
    } else {
        true
    }
}

/// The addresses that pass the filter, in their original order.
pub open spec fn selected_addrs(addrs: Seq<TargetAddr>, v4_only: bool, v6_only: bool) -> Seq<
    TargetAddr,
> {
    addrs.filter(|a: TargetAddr| family_selected(a.family, v4_only, v6_only))
}

/// Applies the optional IPv4-only / IPv6-only filter to the resolved
/// addresses.  Requesting both filters at once is a configuration error,
/// raised before anything else happens.
pub fn filter_target_addrs(addrs: &Vec<TargetAddr>, v4_only: bool, v6_only: bool) -> (r: Result<
    Vec<TargetAddr>,
    ClientConfigError,
>)
    ensures
        (v4_only && v6_only) <==> r is Err,
        r is Err ==> r == Err::<Vec<TargetAddr>, ClientConfigError>(
            ClientConfigError::BothFamilyFilters,
        ),
        r matches Ok(kept) ==> kept@ == selected_addrs(addrs@, v4_only, v6_only),
{
    if v4_only && v6_only {
        return Err(ClientConfigError::BothFamilyFilters);
    }
    let mut kept: Vec<TargetAddr> = Vec::new();
    let mut i: usize = 0;
    while i < addrs.len()
        invariant
            i <= addrs@.len(),
            kept@ == selected_addrs(addrs@.take(i as int), v4_only, v6_only),
        decreases addrs@.len() - i,
    {
        let a = addrs[i];
        let selected = if v4_only {
            matches!(a.family, IpFamily::V4)
        } else if v6_only {
            matches!(a.family, IpFamily::V6)
        } else {
            true
        };
        proof {
            reveal(Seq::filter);
            assert(addrs@.take(i + 1).drop_last() =~= addrs@.take(i as int));
            assert(addrs@.take(i + 1).last() == a);
            assert(selected == family_selected(a.family, v4_only, v6_only));
        }
        if selected {
            kept.push(a);
        }
        proof {
            assert(kept@ =~= selected_addrs(addrs@.take(i + 1), v4_only, v6_only));
        }
        i = i + 1;
    }
    proof {
        assert(addrs@.take(addrs@.len() as int) =~= addrs@);
    }
    Ok(kept)
}

// ---------------------------------------------------------------------------
// Command assembly
// ---------------------------------------------------------------------------

/// The views of a sequence of byte vectors.
pub open spec fn views_of(toks: Seq<Vec<u8>>) -> Seq<Seq<u8>> {
    toks.map_values(|t: Vec<u8>| t@)
}

/// Command tokens joined with single spaces.
pub open spec fn spec_join_spaces(toks: Seq<Seq<u8>>) -> Seq<u8>
    decreases toks.len(),
{
    if toks.len() == 0 {
        Seq::empty()
    } else if toks.len() == 1 {
        toks[0]
    } else {
        spec_join_spaces(toks.drop_last()) + seq![32u8] + toks.last()
    }
}

/// Joins the command tokens with single spaces into the command string the
/// tasks execute.
pub fn join_tokens(toks: &Vec<Vec<u8>>) -> (r: Vec<u8>)
    ensures
        r@ == spec_join_spaces(views_of(toks@)),
{
    let mut out: Vec<u8> = Vec::new();
    let mut i: usize = 0;
    while i < toks.len()
        invariant
            i <= toks@.len(),
            out@ == spec_join_spaces(views_of(toks@.take(i as int))),
        decreases toks@.len() - i,
    {
        if i > 0 {
            out.push(32u8);
        }
        crate::byteseq::append_bytes(&mut out, toks[i].as_slice());
        proof {
            let prefix = views_of(toks@.take(i as int));
            let extended = views_of(toks@.take(i + 1));
            assert(extended =~= prefix.push(toks@[i as int]@));
            if i > 0 {
                assert(extended.drop_last() =~= prefix);
                assert(out@ =~= spec_join_spaces(extended));
            } else {
                assert(out@ =~= spec_join_spaces(extended));
            }
        }
        i = i + 1;
    }
    proof {
        assert(toks@.take(toks@.len() as int) =~= toks@);
    }
    out
}

} // verus!
